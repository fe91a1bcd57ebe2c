use pithddu::format::{
    fmt_from_str, fmtc_format, idx_of, op_from_str, palette_color, rule_match, Fmt, Op, FMT_NAMES,
    OP_NAMES,
};
use pithddu::registry::{field_def, field_id_from_str, FIELD_NONE};

#[test]
fn format_and_op_names_read_back() {
    let fmts = [Fmt::Int, Fmt::Fixed1, Fmt::Fixed2, Fmt::Time, Fmt::Sector, Fmt::Delta, Fmt::Str];
    for (i, f) in fmts.iter().enumerate() {
        assert_eq!(fmt_from_str(FMT_NAMES[i]), *f);
    }
    assert_eq!(fmt_from_str("bogus"), Fmt::Int);
    let ops = [Op::Lt, Op::Le, Op::Eq, Op::Ge, Op::Gt];
    for (i, o) in ops.iter().enumerate() {
        assert_eq!(op_from_str(OP_NAMES[i]), *o);
    }
    assert_eq!(op_from_str("!="), Op::Gt);
}

#[test]
fn index_in_list() {
    assert_eq!(idx_of(&["a", "b", "c"], "c"), 2);
    assert_eq!(idx_of(&["a", "b", "a"], "a"), 0);
    assert_eq!(idx_of(&["a"], "z"), -1);
    assert_eq!(idx_of(&[], "a"), -1);
}

#[test]
fn value_formats() {
    assert_eq!(fmtc_format(84318, Fmt::Time, 1, ""), "1:24.318");
    assert_eq!(fmtc_format(5007, Fmt::Time, 1, "s"), "0:05.007s");
    assert_eq!(fmtc_format(0, Fmt::Time, 1, ""), "--:--.---");
    assert_eq!(fmtc_format(31234, Fmt::Sector, 1, ""), "31.234");
    assert_eq!(fmtc_format(-4, Fmt::Sector, 1, ""), "--.---");
    assert_eq!(fmtc_format(-3000, Fmt::Delta, 1, ""), "-0.3000");
    assert_eq!(fmtc_format(12345, Fmt::Delta, 1, ""), "+1.2345");
    assert_eq!(fmtc_format(250000, Fmt::Delta, 1, ""), "+9.9999");
    assert_eq!(fmtc_format(425, Fmt::Fixed1, 10, "L"), "42.5L");
    assert_eq!(fmtc_format(-425, Fmt::Fixed1, 10, ""), "-42.5");
    assert_eq!(fmtc_format(1234, Fmt::Fixed2, 100, ""), "12.34");
    assert_eq!(fmtc_format(105, Fmt::Fixed2, 100, "%"), "1.05%");
    assert_eq!(fmtc_format(7600, Fmt::Int, 0, "rpm"), "7600rpm");
    assert_eq!(fmtc_format(-17, Fmt::Str, 2, ""), "-8");
}

#[test]
fn colour_rules_and_palette() {
    assert!(rule_match(-1, Op::Lt, 0));
    assert!(!rule_match(0, Op::Lt, 0));
    assert!(rule_match(0, Op::Le, 0));
    assert!(rule_match(7, Op::Eq, 7));
    assert!(rule_match(7, Op::Ge, 7));
    assert!(rule_match(8, Op::Gt, 7));
    assert_eq!(palette_color("green"), 0x00E676);
    assert_eq!(palette_color("bg"), 0x060708);
    assert_eq!(palette_color("nope"), 0xE8EAED);
}

#[test]
fn field_registry_lookup() {
    assert_eq!(field_id_from_str("speed_kmh"), 1);
    assert_eq!(field_id_from_str("fuel_dl"), 23);
    assert_eq!(field_id_from_str("pos_z"), 70);
    assert_eq!(field_id_from_str("nope"), FIELD_NONE);
    let d = field_def(23).unwrap();
    assert_eq!(d.name, "fuel_dl");
    assert_eq!(d.fmt, Fmt::Fixed1);
    assert_eq!(d.scale, 10);
    assert!(field_def(71).is_none());
}
