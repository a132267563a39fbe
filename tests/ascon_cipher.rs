use seekable_stream_cipher::ascon::StreamCipher;
use seekable_stream_cipher::keystream::OverflowError;

fn hex(s: &str) -> Vec<u8> {
    (0..s.len())
        .step_by(2)
        .map(|i| u8::from_str_radix(&s[i..i + 2], 16).unwrap())
        .collect()
}

fn test_key() -> [u8; 32] {
    let mut key = [0u8; 32];
    for (i, b) in key.iter_mut().enumerate() {
        *b = i as u8;
    }
    key
}

fn filled(st: &StreamCipher, start: u64, len: usize) -> Vec<u8> {
    let mut out = vec![0u8; len];
    st.fill(&mut out, start).unwrap();
    out
}

#[test]
fn ascon_test_ascon() {
    let mut key = [0u8; StreamCipher::KEY_LENGTH];
    getrandom::getrandom(&mut key).unwrap();

    let st = StreamCipher::new(&key, b"test");

    let mut out = [0u8; 10000];
    st.apply_keystream(&mut out, 10).unwrap();

    let mut out2 = [0u8; 10000];
    st.fill(&mut out2, 10).unwrap();

    assert_eq!(out, out2);

    st.fill(&mut out2, 11).unwrap();
    assert_eq!(out[1..], out2[0..out2.len() - 1]);
}

#[test]
fn ascon_test_large_context() {
    let mut key = [0u8; StreamCipher::KEY_LENGTH];
    getrandom::getrandom(&mut key).unwrap();
    let context = [0u8; 10000];
    let _ = StreamCipher::new(&key, &context);
}

#[test]
fn ascon_context_lengths_known_answers() {
    let key = test_key();
    let empty = StreamCipher::new(&key, b"");
    assert_eq!(filled(&empty, 0, 16), hex("601bdd4244aeb85ddbea4f3812c59f80"));
    let one_chunk: Vec<u8> = (0..32u8).collect();
    let st = StreamCipher::new(&key, &one_chunk);
    assert_eq!(filled(&st, 0, 16), hex("0bc11e86fba484c8cd73ec6e0dee98e0"));
    let one_more: Vec<u8> = (0..33u8).collect();
    let st = StreamCipher::new(&key, &one_more);
    assert_eq!(filled(&st, 0, 16), hex("a44b4462feab275385dc4050bf4c7ea5"));
    let long: Vec<u8> = (0..400u32).map(|i| (i % 251) as u8).collect();
    let st = StreamCipher::new(&key, &long);
    assert_eq!(filled(&st, 0, 16), hex("a73e619d610f031ecbdf79093e494b8e"));
}

#[test]
fn ascon_encrypts_known_message() {
    let st = StreamCipher::new(&test_key(), b"test");
    let mut msg = *b"attack at dawn!!";
    st.apply_keystream(&mut msg, 5).unwrap();
    assert_eq!(msg[..], hex("ad6d9c0177d33c12b6ae790ddea7e0c8")[..]);
}


#[test]
fn ascon_known_answer_at_start() {
    let st = StreamCipher::new(&test_key(), b"test");
    assert_eq!(filled(&st, 0, 16), hex("2593a1d9adcc19e86014b81c73c28e1d"));
}

#[test]
fn ascon_known_answer_across_block_boundary() {
    let st = StreamCipher::new(&test_key(), b"test");
    assert_eq!(filled(&st, 30, 20), hex("6fb89c79b76e290f83c7cb8fe55637d885823fc4"));
}

#[test]
fn ascon_fill_is_deterministic() {
    let st = StreamCipher::new(&test_key(), b"test");
    let first = filled(&st, 1234, 777);
    let second = filled(&st, 1234, 777);
    assert_eq!(first, second);
    let again = StreamCipher::new(&test_key(), b"test");
    assert_eq!(filled(&again, 1234, 777), first);
}

#[test]
fn ascon_shift_by_one_byte() {
    let st = StreamCipher::new(&test_key(), b"test");
    for start in [0u64, 1, 39, 63, 159, 160, 1000] {
        let a = filled(&st, start, 333);
        let b = filled(&st, start + 1, 332);
        assert_eq!(a[1..], b[..]);
    }
}

#[test]
fn ascon_seek_matches_sequential() {
    let st = StreamCipher::new(&test_key(), b"test");
    let all = filled(&st, 0, 1000);
    for (start, len) in [(0usize, 1000usize), (77, 100), (160, 320), (999, 1), (500, 0)] {
        let direct = filled(&st, start as u64, len);
        assert_eq!(direct[..], all[start..start + len]);
    }
}

#[test]
fn ascon_apply_twice_restores() {
    let st = StreamCipher::new(&test_key(), b"test");
    let plain: Vec<u8> = (0..500u32).map(|i| (i * 7 + 3) as u8).collect();
    let mut buf = plain.clone();
    st.apply_keystream(&mut buf, 42).unwrap();
    assert_ne!(buf, plain);
    st.apply_keystream(&mut buf, 42).unwrap();
    assert_eq!(buf, plain);
}

#[test]
fn ascon_apply_is_fill_xor() {
    let st = StreamCipher::new(&test_key(), b"test");
    let plain: Vec<u8> = (0..300u32).map(|i| (i * 13 + 1) as u8).collect();
    let mut buf = plain.clone();
    st.apply_keystream(&mut buf, 17).unwrap();
    let ks = filled(&st, 17, plain.len());
    let expected: Vec<u8> = plain.iter().zip(ks.iter()).map(|(a, b)| a ^ b).collect();
    assert_eq!(buf, expected);
}

#[test]
fn ascon_overflow_at_the_end_of_the_address_space() {
    let st = StreamCipher::new(&test_key(), b"test");
    let mut one = [7u8; 1];
    assert_eq!(st.fill(&mut one, u64::MAX), Err(OverflowError));
    assert_eq!(one, [7u8; 1]);
    assert_eq!(st.apply_keystream(&mut one, u64::MAX), Err(OverflowError));
    assert_eq!(one, [7u8; 1]);
    let mut ten = [9u8; 10];
    assert_eq!(st.fill(&mut ten, u64::MAX - 10 + 1), Err(OverflowError));
    assert_eq!(ten, [9u8; 10]);
    assert_eq!(st.apply_keystream(&mut ten, u64::MAX - 9), Err(OverflowError));
    assert_eq!(ten, [9u8; 10]);
    assert_eq!(st.fill(&mut ten, u64::MAX - 10), Ok(()));
    let mut empty: [u8; 0] = [];
    assert_eq!(st.fill(&mut empty, u64::MAX), Ok(()));
    assert_eq!(st.apply_keystream(&mut empty, u64::MAX), Ok(()));
}

#[test]
fn ascon_last_bytes_of_the_stream() {
    let st = StreamCipher::new(&test_key(), b"test");
    let tail = filled(&st, u64::MAX - 300, 300);
    let shifted = filled(&st, u64::MAX - 299, 299);
    assert_eq!(tail[1..], shifted[..]);
}

#[test]
fn ascon_contexts_separate_streams() {
    let a = StreamCipher::new(&test_key(), b"test");
    let b = StreamCipher::new(&test_key(), b"tesT");
    assert_ne!(filled(&a, 0, 64), filled(&b, 0, 64));
    let mut other_key = test_key();
    other_key[31] ^= 1;
    let c = StreamCipher::new(&other_key, b"test");
    assert_ne!(filled(&a, 0, 64), filled(&c, 0, 64));
}
