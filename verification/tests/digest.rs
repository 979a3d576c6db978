use dahuavto::digest::{digest_of, hashed_password, join, upper_hex};

#[test]
fn hash_has_upper_case_digits() {
    assert_eq!(upper_hex(&[0, 0x9f, 0xab, 0xff]), "009FABFF");
    assert_eq!(upper_hex(&[]), "");
}

#[test]
fn parts_are_joined_by_colons() {
    assert_eq!(join("a", "", "门"), "a::门");
}

#[test]
fn digests_are_those_of_md5() {
    assert_eq!(digest_of(""), "D41D8CD98F00B204E9800998ECF8427E");
    assert_eq!(digest_of("abc"), "900150983CD24FB0D6963F7D28E17F72");
}

#[test]
fn password_is_hashed_twice() {
    assert_eq!(
        hashed_password("admin", "admin123", "1234567890", "Login to 4K00000"),
        "94E3B9AD5CBAECCADD77FCDF2ED6AE79"
    );
    assert_eq!(hashed_password("用户", "密码", "", ""), "CF2A19BB0711360440AF33DF36A10BEB");
}
