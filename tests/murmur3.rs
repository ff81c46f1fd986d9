use std::io::Cursor;
use tabledb::murmur3_32::murmur_hash3_32;

#[test]
fn murmur_reference_vectors() {
    assert_eq!(murmur_hash3_32(b"", 0), 0);
    assert_eq!(murmur_hash3_32(b"", 1), 0x514e28b7);
    assert_eq!(murmur_hash3_32(b"", 0xffffffff), 0x81f16f39);
    assert_eq!(murmur_hash3_32(&[0, 0, 0, 0], 0), 0x2362f9de);
    assert_eq!(murmur_hash3_32(b"aaaa", 0x9747b28c), 0x5a97808a);
    assert_eq!(murmur_hash3_32(b"aaa", 0x9747b28c), 0x283e0130);
    assert_eq!(murmur_hash3_32(b"aa", 0x9747b28c), 0x5d211726);
    assert_eq!(murmur_hash3_32(b"a", 0x9747b28c), 0x7fa09ea6);
    assert_eq!(murmur_hash3_32(b"abcd", 0x9747b28c), 0xf0478627);
    assert_eq!(murmur_hash3_32(b"Hello, world!", 0x9747b28c), 0x24884cba);
    assert_eq!(
        murmur_hash3_32(b"The quick brown fox jumps over the lazy dog", 0x9747b28c),
        0x2fa826cd
    );
}

#[test]
fn murmur_agrees_with_murmur3_crate() {
    let mut inputs: Vec<Vec<u8>> = Vec::new();
    for len in 0..40u32 {
        inputs.push((0..len).map(|i| (i * 37 + 11) as u8).collect());
    }
    inputs.push(b"hello world".to_vec());
    for input in &inputs {
        for seed in [0u32, 1, 42, 0x9747b28c, u32::MAX] {
            let expected = murmur3::murmur3_32(&mut Cursor::new(input), seed).unwrap();
            assert_eq!(murmur_hash3_32(input, seed), expected);
        }
    }
}
