//! What a failure says.

use unwasm_core::{Error, Module};

#[test]
fn an_unsupported_construct_names_itself_and_its_location() {
    let error = Error::unsupported("v128.load", "function #12");
    let text = error.message();
    assert!(text.contains("v128.load"), "{text}");
    assert!(text.contains("function #12"), "{text}");
    // The message has to say that nothing was emitted, because the reader's
    // next question is always "so what did it do instead?".
    assert!(text.contains("rather than emitting a guess"), "{text}");
}

#[test]
fn an_invalid_module_says_what_did_not_add_up() {
    let text = Error::invalid("stack underflow", "function #3").message();
    assert!(text.contains("stack underflow"), "{text}");
    assert!(text.contains("function #3"), "{text}");
}

#[test]
fn only_a_decode_failure_has_an_underlying_cause() {
    // The other two are this crate's own judgements; there is nothing
    // underneath them to point at.
    let unsupported = Error::unsupported("v128", "somewhere");
    assert!(unsupported.source().is_none());
    let invalid = Error::invalid("nonsense", "somewhere");
    assert!(invalid.source().is_none());
}

#[test]
fn a_decode_failure_keeps_the_decoder_error_as_its_source() {
    let decoded = Module::parse(b"not wasm at all");
    let error = decoded.expect_err("random bytes are not a module");
    assert!(matches!(error, Error::Decode(_)));
    assert!(error.source().is_some());
    assert!(error.message().contains("decoding the module failed"));
}
