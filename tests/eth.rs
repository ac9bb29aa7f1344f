use trin_supervisor::eth::{BlockNumberOrTagInput, BlockTag};
use trin_supervisor::hexfmt::code_hex;

#[test]
fn named_tags_resolve() {
    let cases = [
        ("latest", BlockTag::Latest),
        ("earliest", BlockTag::Earliest),
        ("pending", BlockTag::Pending),
        ("safe", BlockTag::Safe),
        ("finalized", BlockTag::Finalized),
    ];
    for (name, tag) in cases {
        assert_eq!(BlockNumberOrTagInput::Tag(name.to_string()).to_block_tag(), Some(tag));
    }
}

#[test]
fn number_resolves_to_itself() {
    assert_eq!(BlockNumberOrTagInput::Number(21_000_000).to_block_tag(), Some(BlockTag::Number(21_000_000)));
}

#[test]
fn unknown_tag_is_rejected() {
    assert_eq!(BlockNumberOrTagInput::Tag("newest".to_string()).to_block_tag(), None);
    assert_eq!(BlockNumberOrTagInput::Tag("Latest".to_string()).to_block_tag(), None);
    assert_eq!(BlockNumberOrTagInput::Tag(String::new()).to_block_tag(), None);
}

#[test]
fn code_renders_as_lowercase_hex() {
    assert_eq!(code_hex(&[0x60, 0x80, 0x0a, 0xff]), "60800aff");
    assert_eq!(code_hex(&[]), "");
}
