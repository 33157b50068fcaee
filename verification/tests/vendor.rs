use ra_metal_capture::vendor::{
    bindings_head, check_bindings, check_commit, check_header, fence_code_blocks, header_url,
    join_dangling_see, leading_comment, move_punctuation_out_of_links, process_comment, readme,
    rustdoc_from,
};

const COMMIT: &str = "0123456789abcdef0123456789abcdef01234567";

#[test]
fn joins_a_bare_see_with_the_next_line() {
    assert_eq!(
        join_dangling_see("Text.\n  @see  \n   retro_run\nmore"),
        "Text.\n  @see retro_run\nmore\n"
    );
    assert_eq!(join_dangling_see("@sa"), "@sa\n");
    assert_eq!(join_dangling_see("@see x\ny"), "@see x\ny\n");
}

#[test]
fn fences_code_blocks_with_their_language() {
    assert_eq!(
        fence_code_blocks("a\n @code{.c}\nint x;\n@endcode\n\\code\nb\n\\endcode"),
        "a\n```c\nint x;\n```\n```text\nb\n```\n"
    );
    assert_eq!(fence_code_blocks("@code{ {.cpp} }"), "```{.cpp}\n");
}

#[test]
fn moves_punctuation_out_of_links() {
    assert_eq!(
        move_punctuation_out_of_links("See [`NAME.`] and [`B,;`]: x [`open"),
        "See [`NAME`]. and [`B`],;: x [`open"
    );
    assert_eq!(move_punctuation_out_of_links("[`...`]"), "[``]...");
}

#[test]
fn leading_comment_stops_at_the_first_close_and_demotes_it() {
    assert_eq!(
        leading_comment("/*!\n * License\n */\nint x; /*! other */"),
        "/*\n * License\n */\n"
    );
    assert_eq!(leading_comment("no comment"), "no comment\n");
}

#[test]
fn check_commit_wants_forty_hex_digits() {
    assert!(check_commit(COMMIT).is_ok());
    assert!(check_commit(&COMMIT.to_uppercase()).is_ok());
    assert_eq!(
        check_commit("abc").unwrap_err(),
        "expected a full 40-hex-digit RetroArch commit hash, got \"abc\""
    );
    assert!(check_commit(&format!("{}g", &COMMIT[..39])).is_err());
}

#[test]
fn header_url_and_readme_name_the_commit() {
    assert_eq!(
        header_url(COMMIT),
        format!("https://github.com/libretro/RetroArch/blob/{COMMIT}/libretro-common/include/libretro.h")
    );
    let r = readme(COMMIT);
    assert!(r.starts_with("# libretro.h\n\n"), "{r}");
    assert!(r.contains("commit [`0123456789ab`](https://github.com/"), "{r}");
    assert!(r.ends_with("This file is written by\n`update`.\n"), "{r}");
}

#[test]
fn header_and_bindings_must_be_ascii() {
    assert!(check_header(COMMIT, b"plain").is_ok());
    assert_eq!(
        check_header("c", "a\u{e9}".as_bytes()).unwrap_err(),
        "libretro.h at c contains a non-ASCII byte 0xc3; the tree is ASCII-only"
    );
    assert_eq!(
        check_bindings(&[b'x', 0xff]).unwrap_err(),
        "generated bindings contain a non-ASCII byte 0xff"
    );
}

#[test]
fn bindings_head_carries_the_license_comment() {
    let head = bindings_head(COMMIT, "/*!\n * MIT\n */\nstruct x;");
    assert!(head.starts_with("//! libretro's types and constants, generated from\n"), "{head}");
    assert!(head.contains(&format!("//! {COMMIT}:\n")), "{head}");
    assert!(head.contains("/*\n * MIT\n */\n#![allow(\n"), "{head}");
}

#[test]
fn process_comment_fences_joins_then_transforms() {
    let comment = "Brief.\n@param value the value\n@see\nretro_run";
    let prepared = join_dangling_see(&fence_code_blocks(comment));
    let expected = match doxygen_bindgen::transform(&prepared) {
        Ok(t) => move_punctuation_out_of_links(&t),
        Err(_) => prepared.clone(),
    };
    assert_ne!(expected, prepared);
    assert_eq!(process_comment(comment), expected);
}

#[test]
fn a_code_block_is_always_tagged() {
    assert_eq!(fence_code_blocks("@code{}"), "```text\n");
    assert_eq!(fence_code_blocks("\\code{.}"), "```text\n");
    assert_eq!(fence_code_blocks("  @code   "), "```text\n");
}

#[test]
fn rustdoc_is_the_rewrite_with_punctuation_moved_out_or_the_prepared_comment() {
    assert_eq!(rustdoc_from("kept".to_string(), None), "kept");
    assert_eq!(
        rustdoc_from("kept".to_string(), Some("See [`NAME.`]".to_string())),
        "See [`NAME`]."
    );
}
