use ra_metal_capture::config::{expand_tilde, read_all, Size};

#[test]
fn size_parses_wxh_and_rejects_zero_and_malformed() {
    assert_eq!(
        "1600x1440".parse::<Size>().unwrap(),
        Size {
            width: 1600,
            height: 1440
        }
    );
    assert!("1600".parse::<Size>().is_err());
    assert!("0x10".parse::<Size>().is_err());
    assert!("ax10".parse::<Size>().is_err());
}

#[test]
fn size_errors_name_the_part_and_quote_the_text() {
    assert_eq!(Size::parse("1600").unwrap_err(), "expected WxH, got \"1600\"");
    assert_eq!(Size::parse("ax10").unwrap_err(), "bad width in \"ax10\"");
    assert_eq!(Size::parse("10x").unwrap_err(), "bad height in \"10x\"");
    assert_eq!(Size::parse("0x10").unwrap_err(), "width and height must be non-zero");
    assert_eq!(
        Size::parse("10x20x30").unwrap_err(),
        "bad height in \"10x20x30\""
    );
    assert_eq!(
        Size::parse("+3x4").unwrap(),
        Size {
            width: 3,
            height: 4
        }
    );
}

#[test]
fn reads_quoted_values_and_skips_comments_and_blank_lines() {
    let text = "# comment\n\nvideo_driver = \"vulkan\"\nlibretro_directory = \"~/cores\"\n";
    let m = read_all(text);
    assert_eq!(m.len(), 2);
    assert_eq!(m.get("libretro_directory").unwrap(), "~/cores");
    assert_eq!(m.get("video_driver").unwrap(), "vulkan");
    assert!(!m.contains_key("missing"));
}

#[test]
fn tolerates_unquoted_values_and_extra_whitespace() {
    let m = read_all("  x   =   3  \n");
    assert_eq!(m.get("x").unwrap(), "3");
}

#[test]
fn read_all_returns_every_key() {
    let text =
        "# comment\nsameboy_model = \"Auto\"\n\nsameboy_border = \"Never\"\nunquoted = 3\n";
    let m = read_all(text);
    assert_eq!(m.len(), 3);
    assert_eq!(m.get("sameboy_model").unwrap(), "Auto");
    assert_eq!(m.get("sameboy_border").unwrap(), "Never");
    assert_eq!(m.get("unquoted").unwrap(), "3");
}

#[test]
fn a_later_line_replaces_an_earlier_value() {
    let m = read_all("a = \"1\"\nb = 2\na = \"3\"\n");
    assert_eq!(m.len(), 2);
    assert_eq!(m.get("a").unwrap(), "3");
    assert_eq!(m.get("b").unwrap(), "2");
}

#[test]
fn expands_tilde_prefix() {
    let home = "/Users/someone";
    assert_eq!(expand_tilde("~/a/b", Some(home)), format!("{home}/a/b"));
    assert_eq!(expand_tilde("~", Some(home)), home);
    assert_eq!(expand_tilde("/abs", Some(home)), "/abs");
    assert_eq!(expand_tilde("rel/~x", Some(home)), "rel/~x");
    assert_eq!(expand_tilde("~/a", None), "~/a");
    assert_eq!(expand_tilde("~user/a", Some(home)), "~user/a");
}
