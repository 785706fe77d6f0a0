use error_rail::{ComposableError, ErrorContext};

fn fnv(bytes: &[u8]) -> u64 {
    let mut h: u64 = 0xcbf29ce484222325;
    for b in bytes {
        h ^= *b as u64;
        h = h.wrapping_mul(0x100000001b3);
    }
    h
}

fn readme_error() -> ComposableError<&'static str> {
    ComposableError::new("database timeout").with_context(ErrorContext::tag("db")).set_code(504)
}

#[test]
fn fingerprint_hashes_tags_code_and_message() {
    let mut stream: Vec<u8> = Vec::new();
    stream.extend_from_slice(b"tag:db");
    stream.extend_from_slice(b"code:");
    stream.extend_from_slice(&504u32.to_le_bytes());
    stream.extend_from_slice(b"msg:database timeout");
    let e = readme_error();
    assert_eq!(e.fingerprint("database timeout"), fnv(&stream));
}

#[test]
fn fingerprint_hex_is_sixteen_lower_hex_digits() {
    let e = readme_error();
    let hex = e.fingerprint_hex("database timeout");
    assert_eq!(hex.len(), 16);
    assert_eq!(hex, format!("{:016x}", e.fingerprint("database timeout")));
}

#[test]
fn fingerprint_is_deterministic() {
    assert_eq!(readme_error().fingerprint("database timeout"), readme_error().fingerprint("database timeout"));
}

#[test]
fn fingerprint_ignores_tag_order() {
    let a = ComposableError::new("x")
        .with_context(ErrorContext::builder().tag("b").tag("a").build())
        .with_context(ErrorContext::tag("c"));
    let b = ComposableError::new("x")
        .with_context(ErrorContext::tag("c"))
        .with_context(ErrorContext::builder().tag("a").tag("b").build());
    assert_eq!(a.fingerprint("x"), b.fingerprint("x"));
    let mut stream: Vec<u8> = Vec::new();
    stream.extend_from_slice(b"tag:atag:btag:cmsg:x");
    assert_eq!(a.fingerprint("x"), fnv(&stream));
}

#[test]
fn fingerprint_ignores_simple_contexts() {
    let a = ComposableError::new("x").with_context("one");
    let b = ComposableError::new("x").with_context("two");
    assert_eq!(a.fingerprint("x"), b.fingerprint("x"));
}

#[test]
fn fingerprint_without_anything_hashes_nothing() {
    let e = ComposableError::new("x");
    let v = e.fingerprint_config().include_message(false).compute("x");
    assert_eq!(v, 0xcbf29ce484222325);
}

#[test]
fn fingerprint_config_metadata_sorted_by_key() {
    let e = ComposableError::new("m")
        .with_context(ErrorContext::builder().metadata("zeta", "1").metadata("alpha", "2").build());
    let v = e.fingerprint_config().include_message(false).include_metadata(true).compute("m");
    assert_eq!(v, fnv(b"meta:alpha=2meta:zeta=1"));
}

#[test]
fn fingerprint_config_key_lists() {
    let e = ComposableError::new("m")
        .with_context(ErrorContext::builder().metadata("a", "1").metadata("b", "2").metadata("c", "3").build());
    let only = ["a", "c"];
    let v = e.fingerprint_config().include_message(false).include_metadata_keys(&only).compute("m");
    assert_eq!(v, fnv(b"meta:a=1meta:c=3"));
    let skip = ["b"];
    let w = e.fingerprint_config().include_message(false).exclude_metadata_keys(&skip).compute("m");
    assert_eq!(w, fnv(b"meta:a=1meta:c=3"));
}

#[test]
fn fingerprint_config_without_tags_or_code() {
    let e = readme_error();
    let v = e.fingerprint_config().include_tags(false).include_code(false).compute("database timeout");
    assert_eq!(v, fnv(b"msg:database timeout"));
    let hex = e.fingerprint_config().include_tags(false).include_code(false).compute_hex("database timeout");
    assert_eq!(hex, format!("{:016x}", v));
}

#[test]
fn fingerprint_ignores_metadata_order_with_distinct_keys() {
    let a = ComposableError::new("m")
        .with_context(ErrorContext::builder().metadata("k1", "v1").tag("t").build())
        .with_context(ErrorContext::metadata("k2", "v2"));
    let b = ComposableError::new("m")
        .with_context(ErrorContext::metadata("k2", "v2"))
        .with_context(ErrorContext::builder().tag("t").metadata("k1", "v1").build());
    let fa = a.fingerprint_config().include_metadata(true).compute("m");
    let fb = b.fingerprint_config().include_metadata(true).compute("m");
    assert_eq!(fa, fb);
}

#[test]
fn fingerprint_hex_reads_back_as_the_fingerprint() {
    let e = readme_error();
    let hex = e.fingerprint_hex("database timeout");
    assert!(hex.chars().all(|c| c.is_ascii_digit() || ('a'..='f').contains(&c)));
    assert_eq!(u64::from_str_radix(&hex, 16), Ok(e.fingerprint("database timeout")));
}

#[test]
fn excluded_metadata_contexts_do_not_change_fingerprint() {
    let base = ComposableError::new("m").with_context(ErrorContext::builder().metadata("keep", "1").build());
    let more = ComposableError::new("m")
        .with_context(ErrorContext::builder().metadata("keep", "1").build())
        .with_context(ErrorContext::builder().metadata("skip", "x").build());
    let skip = ["skip"];
    assert_eq!(
        base.fingerprint_config().exclude_metadata_keys(&skip).compute("m"),
        more.fingerprint_config().exclude_metadata_keys(&skip).compute("m")
    );
    let keep = ["keep"];
    assert_eq!(
        base.fingerprint_config().include_metadata_keys(&keep).compute("m"),
        more.fingerprint_config().include_metadata_keys(&keep).compute("m")
    );
}
