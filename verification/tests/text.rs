use directory_core::roles::{Error, Identity, UserRole};
use directory_core::roles::{role_level, role_name};
use directory_core::text::{
    chars_of, id_short, invite_code_text, is_alphabet_char, is_space_char, join2, join3, join4,
    normalize_slug, text_of, trim, truncate_preview, validate_email, validate_invite_code_format,
    validate_length, validate_not_empty,
};

#[test]
fn role_levels_are_five_down_to_zero() {
    assert_eq!(role_level(UserRole::Owner), 5);
    assert_eq!(role_level(UserRole::Admin), 4);
    assert_eq!(role_level(UserRole::Member), 3);
    assert_eq!(role_level(UserRole::Installer), 2);
    assert_eq!(role_level(UserRole::Field), 1);
    assert_eq!(role_level(UserRole::Pending), 0);
}

#[test]
fn role_levels_order_the_roles_totally() {
    let roles = [
        UserRole::Pending,
        UserRole::Field,
        UserRole::Installer,
        UserRole::Member,
        UserRole::Admin,
        UserRole::Owner,
    ];
    for (i, a) in roles.iter().enumerate() {
        for (j, b) in roles.iter().enumerate() {
            assert_eq!(role_level(*a) == role_level(*b), i == j);
            assert_eq!(role_level(*a) < role_level(*b), i < j);
        }
    }
}

#[test]
fn role_names_are_the_variant_names() {
    assert_eq!(role_name(UserRole::Owner), "Owner");
    assert_eq!(role_name(UserRole::Admin), "Admin");
    assert_eq!(role_name(UserRole::Member), "Member");
    assert_eq!(role_name(UserRole::Installer), "Installer");
    assert_eq!(role_name(UserRole::Field), "Field");
    assert_eq!(role_name(UserRole::Pending), "Pending");
}

#[test]
fn trim_removes_white_space_at_both_ends_only() {
    assert_eq!(trim("  hello world \t\n"), "hello world");
    assert_eq!(trim("hello"), "hello");
    assert_eq!(trim(""), "");
    assert_eq!(trim(" \t\r\n "), "");
    assert_eq!(trim("a"), "a");
    assert_eq!(trim(" a"), "a");
    assert_eq!(trim("a "), "a");
    assert_eq!(trim("\u{a0}\u{3000}caf\u{e9}\u{2003}\u{85}"), "caf\u{e9}");
}

#[test]
fn trim_agrees_with_the_standard_library() {
    let samples = [
        "",
        " ",
        "  x  ",
        "\u{1680}x\u{2028}",
        "\u{2029}x y\u{202f}",
        "\u{205f}\u{200a}x\u{2000}",
        "\u{b}\u{c}x\u{d}",
        "\u{200b}x\u{200b}",
        "\u{180e}x",
        "x\u{feff}",
    ];
    for s in samples {
        assert_eq!(trim(s), s.trim());
    }
}

#[test]
fn white_space_is_the_unicode_property() {
    for code in 0u32..0x3100 {
        if let Some(c) = char::from_u32(code) {
            assert_eq!(is_space_char(c), c.is_whitespace(), "U+{:04X}", code);
        }
    }
}

#[test]
fn chars_and_text_round_trip() {
    let chars = chars_of("h\u{e9}llo");
    assert_eq!(chars, vec!['h', '\u{e9}', 'l', 'l', 'o']);
    assert_eq!(text_of(&chars, 0, 5), "h\u{e9}llo");
    assert_eq!(text_of(&chars, 1, 3), "\u{e9}l");
    assert_eq!(text_of(&chars, 2, 2), "");
}

#[test]
fn length_is_counted_in_bytes() {
    assert_eq!(validate_length("abcde", 5), Ok(()));
    assert_eq!(validate_length("abcdef", 5), Err(Error::InvalidInput));
    assert_eq!(validate_length("", 0), Ok(()));
    // Two characters, four bytes.
    assert_eq!(validate_length("\u{e9}\u{e9}", 4), Ok(()));
    assert_eq!(validate_length("\u{e9}\u{e9}", 3), Err(Error::InvalidInput));
}

#[test]
fn empty_text_is_refused() {
    assert_eq!(validate_not_empty(""), Err(Error::InvalidInput));
    assert_eq!(validate_not_empty(" "), Ok(()));
    assert_eq!(validate_not_empty("x"), Ok(()));
}

#[test]
fn well_shaped_addresses_are_accepted() {
    for ok in [
        "a@b.co",
        "first.last@example.com",
        "x@sub.domain.org",
        "a@b@c.de",
        "user+tag@host.io",
        "\u{e9}@b.co",
    ] {
        assert_eq!(validate_email(ok), Ok(()), "{}", ok);
    }
}

#[test]
fn ill_shaped_addresses_are_refused() {
    let long_local = format!("{}@b.co", "a".repeat(65));
    for bad in [
        "",
        "plain",
        "@b.co",
        "a@",
        "a@b",
        ".a@b.co",
        "a.@b.co",
        "a..b@b.co",
        "a@.b.co",
        "a@b.co.",
        "a@b..co",
        "a@b.c",
        long_local.as_str(),
    ] {
        assert_eq!(validate_email(bad), Err(Error::InvalidInput), "{}", bad);
    }
}

#[test]
fn the_local_part_may_have_sixty_four_bytes() {
    let at_limit = format!("{}@b.co", "a".repeat(64));
    assert_eq!(validate_email(&at_limit), Ok(()));
    // Thirty-three two-byte characters are sixty-six bytes.
    let wide = format!("{}@b.co", "\u{e9}".repeat(33));
    assert_eq!(validate_email(&wide), Err(Error::InvalidInput));
    // One two-byte character is a top-level part of two bytes.
    assert_eq!(validate_email("a@b.\u{e9}"), Ok(()));
}

#[test]
fn codes_have_four_groups_of_four() {
    assert_eq!(validate_invite_code_format("ABCD-EFGH-JKLM-2345"), Ok(()));
    assert_eq!(validate_invite_code_format("ZZZZ-9999-AAAA-2222"), Ok(()));
    for bad in [
        "",
        "ABCD-EFGH-JKLM",
        "ABCD-EFGH-JKLM-2345-6789",
        "ABCDEFGHJKLM2345",
        "ABCD-EFGH-JKLM-234",
        "ABCD-EFGH-JKLM-23456",
        "abcd-efgh-jklm-2345",
        "ABCD-EFGH-JKLM-234O",
        "ABCD-EFGH-JKLM-234I",
        "ABCD-EFGH-JKLM-2340",
        "ABCD-EFGH-JKLM-2341",
        "ABCD_EFGH-JKLM-2345",
        "ABC--EFGH-JKLM-2345",
        "ABCD-EFGH-JKLM-234\u{e9}",
    ] {
        assert_eq!(validate_invite_code_format(bad), Err(Error::InvalidInput), "{}", bad);
    }
}

#[test]
fn the_code_alphabet_has_thirty_two_characters() {
    let alphabet = "ABCDEFGHJKLMNPQRSTUVWXYZ23456789";
    for code in 0u32..128 {
        let c = char::from_u32(code).unwrap();
        assert_eq!(is_alphabet_char(c), alphabet.contains(c), "{:?}", c);
    }
}

#[test]
fn draws_pick_the_characters_of_a_code() {
    assert_eq!(invite_code_text(&[0; 16]), "AAAA-AAAA-AAAA-AAAA");
    let mut draws = [0u64; 16];
    for (i, d) in draws.iter_mut().enumerate() {
        *d = i as u64;
    }
    assert_eq!(invite_code_text(&draws), "ABCD-EFGH-JKLM-NPQR");
    for (i, d) in draws.iter_mut().enumerate() {
        *d = 16 + i as u64;
    }
    assert_eq!(invite_code_text(&draws), "STUV-WXYZ-2345-6789");
    // Only the remainder modulo 32 counts.
    assert_eq!(invite_code_text(&[32; 16]), "AAAA-AAAA-AAAA-AAAA");
    assert_eq!(invite_code_text(&[u64::MAX; 16]), "9999-9999-9999-9999");
    assert_eq!(validate_invite_code_format(&invite_code_text(&[u64::MAX - 7; 16])), Ok(()));
}

#[test]
fn slugs_are_normalized() {
    assert_eq!(normalize_slug("Acme"), "acme");
    assert_eq!(normalize_slug("  My  Sign   Shop "), "my-sign-shop");
    assert_eq!(normalize_slug("--a--b--"), "a-b");
    assert_eq!(normalize_slug("A - B"), "a-b");
    assert_eq!(normalize_slug("-"), "");
    assert_eq!(normalize_slug("   "), "");
    assert_eq!(normalize_slug(""), "");
    assert_eq!(normalize_slug("already-fine"), "already-fine");
    assert_eq!(normalize_slug("\u{c9}COLE des Arts"), "\u{e9}cole-des-arts");
    assert_eq!(normalize_slug("a\tb"), "a\tb");
}

#[test]
fn previews_are_cut_after_the_given_number_of_characters() {
    assert_eq!(truncate_preview("hello", 10), "hello");
    assert_eq!(truncate_preview("hello", 5), "hello");
    assert_eq!(truncate_preview("hello", 4), "hell...");
    assert_eq!(truncate_preview("hello", 0), "...");
    assert_eq!(truncate_preview("", 0), "");
    assert_eq!(truncate_preview("h\u{e9}llo", 2), "h\u{e9}...");
}

#[test]
fn short_identities_show_twelve_digits() {
    assert_eq!(id_short(Identity::from_u64(7)), "000000000000...");
    let id = Identity { w0: 0x0123_4567_89ab_cdef, w1: 1, w2: 2, w3: 3 };
    assert_eq!(id_short(id), "0123456789ab...");
    let id = Identity { w0: u64::MAX, w1: 0, w2: 0, w3: 0 };
    assert_eq!(id_short(id), "ffffffffffff...");
}

#[test]
fn identities_from_numbers_differ() {
    assert_eq!(Identity::from_u64(5), Identity { w0: 0, w1: 0, w2: 0, w3: 5 });
    assert_ne!(Identity::from_u64(5), Identity::from_u64(6));
}

#[test]
fn joined_text_is_in_order() {
    assert_eq!(join2("a", "b"), "ab");
    assert_eq!(join3("a", "", "c"), "ac");
    assert_eq!(join4("w", "x", "y", "z"), "wxyz");
}
