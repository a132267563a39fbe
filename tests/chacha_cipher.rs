use seekable_stream_cipher::chacha::StreamCipher;
use seekable_stream_cipher::keystream::OverflowError;

fn hex(s: &str) -> Vec<u8> {
    (0..s.len())
        .step_by(2)
        .map(|i| u8::from_str_radix(&s[i..i + 2], 16).unwrap())
        .collect()
}

fn test_key() -> [u8; 32] {
    let mut key = [0u8; 32];
    for (i, b) in key.iter_mut().enumerate() {
        *b = i as u8;
    }
    key
}

fn filled(st: &StreamCipher, start: u64, len: usize) -> Vec<u8> {
    let mut out = vec![0u8; len];
    st.fill(&mut out, start).unwrap();
    out
}

#[test]
fn chacha_test_ascon() {
    let mut key = [0u8; StreamCipher::KEY_LENGTH];
    getrandom::getrandom(&mut key).unwrap();

    let st = StreamCipher::new(&key, b"testtest");

    let mut out = [0u8; 10000];
    st.apply_keystream(&mut out, 10).unwrap();

    let mut out2 = [0u8; 10000];
    st.fill(&mut out2, 10).unwrap();

    assert_eq!(out, out2);

    st.fill(&mut out2, 11).unwrap();
    assert_eq!(out[1..], out2[0..out2.len() - 1]);
}

#[test]
fn chacha_matches_chacha20_block_vectors() {
    let st = StreamCipher::new(&[0u8; 32], &[0u8; 8]);
    assert_eq!(
        filled(&st, 0, 64),
        hex("76b8e0ada0f13d90405d6ae55386bd28bdd219b8a08ded1aa836efcc8b770dc7da41597c5157488d7724e03fb8d84a376a43b8f41518a11cc387b669b2ee6586")
    );
    assert_eq!(
        filled(&st, 64, 64),
        hex("9f07e7be5551387a98ba977c732d080dcb0f29a048e3656912c6533e32ee7aed29b721769ce64e43d57133b074d839d531ed1f28510afb45ace10a1f4b794d6f")
    );
}


#[test]
fn chacha_known_answer_at_start() {
    let st = StreamCipher::new(&test_key(), b"testtest");
    assert_eq!(filled(&st, 0, 16), hex("5b71d06e4546c454d7fd84c560cd4079"));
}

#[test]
fn chacha_known_answer_across_block_boundary() {
    let st = StreamCipher::new(&test_key(), b"testtest");
    assert_eq!(filled(&st, 60, 10), hex("6b4caf42097472b8ef5f"));
}

#[test]
fn chacha_fill_is_deterministic() {
    let st = StreamCipher::new(&test_key(), b"testtest");
    let first = filled(&st, 1234, 777);
    let second = filled(&st, 1234, 777);
    assert_eq!(first, second);
    let again = StreamCipher::new(&test_key(), b"testtest");
    assert_eq!(filled(&again, 1234, 777), first);
}

#[test]
fn chacha_shift_by_one_byte() {
    let st = StreamCipher::new(&test_key(), b"testtest");
    for start in [0u64, 1, 39, 63, 159, 160, 1000] {
        let a = filled(&st, start, 333);
        let b = filled(&st, start + 1, 332);
        assert_eq!(a[1..], b[..]);
    }
}

#[test]
fn chacha_seek_matches_sequential() {
    let st = StreamCipher::new(&test_key(), b"testtest");
    let all = filled(&st, 0, 1000);
    for (start, len) in [(0usize, 1000usize), (77, 100), (160, 320), (999, 1), (500, 0)] {
        let direct = filled(&st, start as u64, len);
        assert_eq!(direct[..], all[start..start + len]);
    }
}

#[test]
fn chacha_apply_twice_restores() {
    let st = StreamCipher::new(&test_key(), b"testtest");
    let plain: Vec<u8> = (0..500u32).map(|i| (i * 7 + 3) as u8).collect();
    let mut buf = plain.clone();
    st.apply_keystream(&mut buf, 42).unwrap();
    assert_ne!(buf, plain);
    st.apply_keystream(&mut buf, 42).unwrap();
    assert_eq!(buf, plain);
}

#[test]
fn chacha_apply_is_fill_xor() {
    let st = StreamCipher::new(&test_key(), b"testtest");
    let plain: Vec<u8> = (0..300u32).map(|i| (i * 13 + 1) as u8).collect();
    let mut buf = plain.clone();
    st.apply_keystream(&mut buf, 17).unwrap();
    let ks = filled(&st, 17, plain.len());
    let expected: Vec<u8> = plain.iter().zip(ks.iter()).map(|(a, b)| a ^ b).collect();
    assert_eq!(buf, expected);
}

#[test]
fn chacha_overflow_at_the_end_of_the_address_space() {
    let st = StreamCipher::new(&test_key(), b"testtest");
    let mut one = [7u8; 1];
    assert_eq!(st.fill(&mut one, u64::MAX), Err(OverflowError));
    assert_eq!(one, [7u8; 1]);
    assert_eq!(st.apply_keystream(&mut one, u64::MAX), Err(OverflowError));
    assert_eq!(one, [7u8; 1]);
    let mut ten = [9u8; 10];
    assert_eq!(st.fill(&mut ten, u64::MAX - 10 + 1), Err(OverflowError));
    assert_eq!(ten, [9u8; 10]);
    assert_eq!(st.apply_keystream(&mut ten, u64::MAX - 9), Err(OverflowError));
    assert_eq!(ten, [9u8; 10]);
    assert_eq!(st.fill(&mut ten, u64::MAX - 10), Ok(()));
    let mut empty: [u8; 0] = [];
    assert_eq!(st.fill(&mut empty, u64::MAX), Ok(()));
    assert_eq!(st.apply_keystream(&mut empty, u64::MAX), Ok(()));
}

#[test]
fn chacha_last_bytes_of_the_stream() {
    let st = StreamCipher::new(&test_key(), b"testtest");
    let tail = filled(&st, u64::MAX - 300, 300);
    let shifted = filled(&st, u64::MAX - 299, 299);
    assert_eq!(tail[1..], shifted[..]);
}

#[test]
fn chacha_contexts_separate_streams() {
    let a = StreamCipher::new(&test_key(), b"testtest");
    let b = StreamCipher::new(&test_key(), b"testtesT");
    assert_ne!(filled(&a, 0, 64), filled(&b, 0, 64));
    let mut other_key = test_key();
    other_key[31] ^= 1;
    let c = StreamCipher::new(&other_key, b"testtest");
    assert_ne!(filled(&a, 0, 64), filled(&c, 0, 64));
}
