use pithddu::util::{atoi, car_variant, clean_car_name, hex_prefix, norm_name, trim, trim_ws};

#[test]
fn atoi_reads_leading_integer() {
    assert_eq!(atoi("  42abc"), 42);
    assert_eq!(atoi("-17"), -17);
    assert_eq!(atoi("+8"), 8);
    assert_eq!(atoi("x9"), 0);
    assert_eq!(atoi(""), 0);
    assert_eq!(atoi("99999999999"), i32::MAX);
    assert_eq!(atoi("-99999999999"), -i32::MAX);
}

#[test]
fn trims() {
    assert_eq!(trim(" \tab c\t "), "ab c");
    assert_eq!(trim("\nx\n"), "\nx\n");
    assert_eq!(trim_ws("\u{3000} x y \n"), "x y");
    assert_eq!(trim_ws("   "), "");
}

#[test]
fn hex_prefix_reads_hex_digits() {
    assert_eq!(hex_prefix("FF0000"), 0xFF0000);
    assert_eq!(hex_prefix("  1aZ"), 0x1a);
    assert_eq!(hex_prefix("zz"), 0);
    assert_eq!(hex_prefix("123456789"), 0x23456789);
    assert_eq!(hex_prefix("11112222333344445"), 0);
}

#[test]
fn names_normalise() {
    assert_eq!(norm_name("Porsche 911 GT3-R!"), "porsche911gt3r");
    assert_eq!(car_variant("bmw_m4_gt3_evo", "BMW M4 GT3"), "evo");
    assert_eq!(car_variant("ferrari_488", "Porsche"), "ferrari 488");
    assert_eq!(clean_car_name("Oreca 07 #38:LMP2"), "Oreca 07");
}
