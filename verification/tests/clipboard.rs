use talos_tui::clipboard::{
    after_osc52, base64_encode, copy_outcome, ClipboardBackend, ClipboardError, ClipboardPayload,
};

#[test]
fn base64_encode_empty() {
    assert_eq!(base64_encode(b""), "");
}

#[test]
fn base64_encode_rfc4648_fixtures() {
    assert_eq!(base64_encode(b"f"), "Zg==");
    assert_eq!(base64_encode(b"fo"), "Zm8=");
    assert_eq!(base64_encode(b"foo"), "Zm9v");
    assert_eq!(base64_encode(b"foob"), "Zm9vYg==");
    assert_eq!(base64_encode(b"fooba"), "Zm9vYmE=");
    assert_eq!(base64_encode(b"foobar"), "Zm9vYmFy");
}

#[test]
fn base64_encode_handles_binary() {
    assert_eq!(base64_encode(&[0x00, 0x01, 0x02]), "AAEC");
    assert_eq!(base64_encode(&[0xFF, 0xFF, 0xFF]), "////");
}

#[test]
fn osc52_format_is_bel_terminated() {
    let payload = ClipboardPayload::new("hello");
    let esc = payload.to_osc52();
    assert!(esc.starts_with("\x1b]52;c;"));
    assert!(esc.ends_with('\x07'));
    // base64("hello") = "aGVsbG8="
    assert_eq!(esc, "\x1b]52;c;aGVsbG8=\x07");
}

#[test]
fn osc52_handles_empty_text() {
    let payload = ClipboardPayload::new("");
    assert_eq!(payload.to_osc52(), "\x1b]52;c;\x07");
}

#[test]
fn osc52_handles_unicode() {
    // base64("中文") = "5Lit5paH"
    let payload = ClipboardPayload::new("中文");
    assert_eq!(payload.to_osc52(), "\x1b]52;c;5Lit5paH\x07");
}

#[test]
fn base64_uses_the_whole_alphabet() {
    let bytes: Vec<u8> = (0u8..=255).collect();
    let encoded = base64_encode(&bytes);
    assert_eq!(encoded.len(), 344);
    assert!(encoded.starts_with("AAECAwQFBgcICQoLDA0ODxAREhMUFRYXGBkaGxwdHh8g"));
    assert!(encoded.ends_with("+/w=="));
}

#[test]
fn copy_falls_back_to_pbcopy_only_when_osc52_fails() {
    assert!(!after_osc52(true));
    assert!(after_osc52(false));
    assert_eq!(copy_outcome(true, None), Ok(ClipboardBackend::Osc52));
    assert_eq!(copy_outcome(false, Some(Ok(()))), Ok(ClipboardBackend::Pbcopy));
    assert_eq!(
        copy_outcome(false, Some(Err(ClipboardError::PbcopyNotFound))),
        Err(ClipboardError::PbcopyNotFound)
    );
}

#[test]
fn base64_length_and_padding_follow_the_input_length() {
    for n in 0..12usize {
        let input: Vec<u8> = (0..n).map(|i| (i * 37 + 5) as u8).collect();
        let out = base64_encode(&input);
        assert_eq!(out.len(), 4 * ((n + 2) / 3));
        let pad = (3 - n % 3) % 3;
        let body = &out[..out.len() - pad];
        assert!(out[out.len() - pad..].chars().all(|c| c == '='));
        assert!(body.chars().all(|c| c.is_ascii_alphanumeric() || c == '+' || c == '/'));
    }
}
