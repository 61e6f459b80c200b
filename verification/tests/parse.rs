use cube_lut::{Error, InputRange, Lut, Parser, Step};

fn decode(text: &str) -> Option<u32> {
    text.parse::<f32>().ok().map(f32::to_bits)
}

fn lines(text: &str) -> Vec<String> {
    text.split('\n').map(String::from).collect()
}

fn parse(text: &str) -> Result<Lut, Error> {
    Lut::parse(&lines(text), decode)
}

fn floats(samples: &[u32]) -> Vec<f32> {
    samples.iter().map(|&b| f32::from_bits(b)).collect()
}

fn triple(values: [f32; 3]) -> [u32; 3] {
    [values[0].to_bits(), values[1].to_bits(), values[2].to_bits()]
}

#[test]
fn minimal_one_d_file() {
    let lut = parse("LUT_1D_SIZE 3\n0.0 0.1 0.2\n0.3 0.4 0.5\n0.6 0.7 0.8\n").unwrap();
    assert_eq!(lut.cube().dim(), 1);
    assert_eq!(lut.cube().size(), 3);
    assert!(lut.shaper().is_none());
    assert_eq!(lut.cube().r_len(), 9);
    assert_eq!(floats(lut.cube().raw()), vec![0.0, 0.1, 0.2, 0.3, 0.4, 0.5, 0.6, 0.7, 0.8]);
    assert_eq!(lut.title(), None);
    assert_eq!(lut.comments(), "");
    assert!(!lut.in_video_range());
    assert!(!lut.out_video_range());
    assert_eq!(lut.domain_min(), None);
    assert_eq!(lut.domain_max(), None);
    assert!(lut.cube().input_range().is_none());
}

#[test]
fn minimal_three_d_file() {
    let mut text = String::from("LUT_3D_SIZE 2\n");
    for row in 0..8 {
        text.push_str(&format!("{} {} {}\n", row, row as f32 + 0.25, row as f32 + 0.5));
    }
    let lut = parse(&text).unwrap();
    assert_eq!(lut.cube().dim(), 3);
    assert_eq!(lut.cube().size(), 2);
    let expected: Vec<f32> =
        (0..8).flat_map(|row| [row as f32, row as f32 + 0.25, row as f32 + 0.5]).collect();
    assert_eq!(floats(lut.cube().raw()), expected);
    assert!(lut.shaper().is_none());
}

#[test]
fn samples_are_the_bit_patterns_of_the_decoded_numbers() {
    let lut = parse("LUT_1D_SIZE 2\n1 -0 1e-3\ninf 0.5 3.4028235e38").unwrap();
    assert_eq!(
        lut.cube().raw(),
        &[0x3f80_0000, 0x8000_0000, 0x3a83_126f, 0x7f80_0000, 0x3f00_0000, 0x7f7f_ffff]
    );
}

#[test]
fn the_decoder_decides_what_a_number_is() {
    let hex = |text: &str| u32::from_str_radix(text, 16).ok();
    let lut = Lut::parse(&lines("LUT_1D_SIZE 1\nff 10 a"), hex).unwrap();
    assert_eq!(lut.cube().raw(), &[255, 16, 10]);
    assert_eq!(
        Lut::parse(&lines("LUT_1D_SIZE 1\n0.5 0.5 0.5"), hex).unwrap_err(),
        Error::InvalidRgb("0.5 0.5 0.5".to_string())
    );
}

#[test]
fn two_size_directives_make_shaper_and_primary() {
    let mut text = String::from("LUT_1D_SIZE 4095\nLUT_3D_SIZE 65\n");
    for row in 0..4095 {
        text.push_str(&format!("{} {} {}\n", row, row + 1, row + 2));
    }
    let cells = 65 * 65 * 65;
    for row in 0..cells {
        text.push_str(&format!("{} {} {}\n", row, 0.5, 0.25));
    }
    let lut = parse(&text).expect("lut");
    assert_eq!(lut.cube().dim(), 3);
    assert_eq!(lut.cube().size(), 65);
    assert_eq!(lut.cube().r_len(), cells * 3);
    let shaper = lut.shaper().unwrap();
    assert_eq!(shaper.dim(), 1);
    assert_eq!(shaper.size(), 4095);
    assert_eq!(shaper.r_len(), 4095 * 3);
    assert_eq!(floats(&shaper.raw()[..6]), vec![0.0, 1.0, 2.0, 1.0, 2.0, 3.0]);
    assert_eq!(floats(&shaper.raw()[4094 * 3..]), vec![4094.0, 4095.0, 4096.0]);
    assert_eq!(floats(&lut.cube().raw()[..6]), vec![0.0, 0.5, 0.25, 1.0, 0.5, 0.25]);
    assert_eq!(
        floats(&lut.cube().raw()[(cells - 1) * 3..]),
        vec![(cells - 1) as f32, 0.5, 0.25]
    );
}

#[test]
fn one_d_cube_of_4096_entries() {
    let mut text = String::from("# Linear to log\nLUT_1D_SIZE 4096\nLUT_1D_INPUT_RANGE 0.0 1.0\n");
    for row in 0..4096 {
        text.push_str(&format!("{0} {0} {0}\n", row as f32 / 4095.0));
    }
    let lut = parse(&text).expect("lut");
    assert_eq!(lut.cube().dim(), 1);
    assert_eq!(lut.cube().size(), 4096);
    assert!(lut.shaper().is_none());
    assert_eq!(lut.comments(), "# Linear to log");
    assert_eq!(
        lut.cube().input_range(),
        Some(&InputRange { min: 0.0f32.to_bits(), max: 1.0f32.to_bits() })
    );
    assert_eq!(f32::from_bits(lut.cube().raw()[4095 * 3]), 1.0);
}

#[test]
fn the_first_completed_cube_is_the_shaper_whatever_its_dimension() {
    let mut text = String::from("LUT_3D_SIZE 2\nLUT_1D_SIZE 2\n");
    for row in 0..10 {
        text.push_str(&format!("{0} {0} {0}\n", row));
    }
    let lut = parse(&text).unwrap();
    assert_eq!(lut.cube().dim(), 1);
    assert_eq!(lut.cube().size(), 2);
    assert_eq!(floats(lut.cube().raw()), vec![8.0, 8.0, 8.0, 9.0, 9.0, 9.0]);
    let shaper = lut.shaper().unwrap();
    assert_eq!(shaper.dim(), 3);
    assert_eq!(shaper.size(), 2);
    assert_eq!(f32::from_bits(shaper.raw()[23]), 7.0);
}

#[test]
fn a_third_size_directive_drops_the_oldest_cube() {
    let text = "LUT_1D_SIZE 5\nLUT_1D_SIZE 1\nLUT_1D_SIZE 2\n1 1 1\n2 2 2\n3 3 3\n";
    let lut = parse(text).unwrap();
    assert_eq!(lut.shaper().unwrap().size(), 1);
    assert_eq!(floats(lut.shaper().unwrap().raw()), vec![1.0, 1.0, 1.0]);
    assert_eq!(lut.cube().size(), 2);
    assert_eq!(floats(lut.cube().raw()), vec![2.0, 2.0, 2.0, 3.0, 3.0, 3.0]);
}

#[test]
fn comments_are_joined_by_newlines_in_file_order() {
    let text = "# first\nTITLE t\n  # second  \nLUT_1D_SIZE 2\n#third\n0 0 0\n\t# fourth\n1 1 1\n# late\n";
    let lut = parse(text).unwrap();
    assert_eq!(lut.comments(), "# first\n# second\n#third\n# fourth");
    assert_eq!(lut.title(), Some("t"));
    assert_eq!(floats(lut.cube().raw()), vec![0.0, 0.0, 0.0, 1.0, 1.0, 1.0]);
}

#[test]
fn a_comment_is_never_a_directive_or_a_row() {
    let text = "#LUT_1D_SIZE 7\n# 1 2 3\nLUT_1D_SIZE 1\n# 4 5 6\n#\n7 8 9\n";
    let lut = parse(text).unwrap();
    assert_eq!(lut.cube().size(), 1);
    assert_eq!(floats(lut.cube().raw()), vec![7.0, 8.0, 9.0]);
    assert_eq!(lut.comments(), "#LUT_1D_SIZE 7\n# 1 2 3\n# 4 5 6\n#");
}

#[test]
fn truncated_data_is_an_unexpected_end() {
    assert_eq!(parse("LUT_1D_SIZE 3\n0 0 0\n1 1 1\n").unwrap_err(), Error::Eof);
    assert_eq!(parse("LUT_1D_SIZE 3\n").unwrap_err(), Error::Eof);
    assert_eq!(parse("LUT_3D_SIZE 2\n0 0 0\n1 1 1\n2 2 2\n3 3 3\n4 4 4\n5 5 5\n6 6 6\n").unwrap_err(), Error::Eof);
    assert_eq!(
        parse("LUT_1D_SIZE 2\nLUT_3D_SIZE 2\n0 0 0\n1 1 1\n2 2 2\n").unwrap_err(),
        Error::Eof
    );
}

#[test]
fn empty_input_is_an_unexpected_end() {
    assert_eq!(Lut::parse(&[], decode).unwrap_err(), Error::Eof);
    assert_eq!(parse("").unwrap_err(), Error::Eof);
    assert_eq!(parse("\n\n# only a comment\n\n").unwrap_err(), Error::Eof);
}

#[test]
fn domain_bounds_are_kept() {
    let text = "DOMAIN_MIN 0.0 0.0 0.0\nDOMAIN_MAX 1.0 1.0 1.0\nLUT_1D_SIZE 2\n0 0 0\n1 1 1\n";
    let lut = parse(text).unwrap();
    assert_eq!(lut.domain_min(), Some(&triple([0.0, 0.0, 0.0])));
    assert_eq!(lut.domain_max(), Some(&triple([1.0, 1.0, 1.0])));
    assert_eq!(lut.domain_min(), Some(&[0, 0, 0]));
    assert_eq!(lut.domain_max(), Some(&[0x3f80_0000, 0x3f80_0000, 0x3f80_0000]));
}

#[test]
fn domain_bounds_do_not_depend_on_pending_cubes() {
    let text = "LUT_1D_SIZE 1\nDOMAIN_MIN -1 0 0.5\nLUT_3D_SIZE 1\nDOMAIN_MAX 2 3 4\n0 0 0\n1 1 1\n";
    let lut = parse(text).unwrap();
    assert_eq!(lut.domain_min(), Some(&triple([-1.0, 0.0, 0.5])));
    assert_eq!(lut.domain_max(), Some(&triple([2.0, 3.0, 4.0])));
    assert_eq!(lut.shaper().unwrap().dim(), 1);
    assert_eq!(lut.cube().dim(), 3);
    assert!(lut.cube().input_range().is_none());
}

#[test]
fn a_malformed_domain_bound_is_an_invalid_rgb() {
    for line in ["DOMAIN_MIN 0", "DOMAIN_MIN 0 0", "DOMAIN_MAX 0 0 x", "DOMAIN_MAX 0 0 0 0", "DOMAIN_MIN 0  0 0"] {
        let text = format!("{}\nLUT_1D_SIZE 1\n0 0 0\n", line);
        assert_eq!(parse(&text).unwrap_err(), Error::InvalidRgb(line.to_string()), "{:?}", line);
    }
}

#[test]
fn parsing_twice_gives_the_same_table_set() {
    let text = "# c\nTITLE \"twice\"\nLUT_IN_VIDEO_RANGE x\nDOMAIN_MIN 0 0 0\nLUT_1D_SIZE 2\nLUT_1D_INPUT_RANGE 0 2\nLUT_3D_SIZE 1\n0 1 2\n3 4 5\n6 7 8\n";
    let a = parse(text).unwrap();
    let b = parse(text).unwrap();
    assert_eq!(a.title(), b.title());
    assert_eq!(a.comments(), b.comments());
    assert_eq!(a.in_video_range(), b.in_video_range());
    assert_eq!(a.out_video_range(), b.out_video_range());
    assert_eq!(a.domain_min(), b.domain_min());
    assert_eq!(a.domain_max(), b.domain_max());
    assert_eq!(a.cube().dim(), b.cube().dim());
    assert_eq!(a.cube().size(), b.cube().size());
    assert_eq!(a.cube().input_range(), b.cube().input_range());
    assert_eq!(a.cube().raw(), b.cube().raw());
    assert_eq!(a.shaper().unwrap().raw(), b.shaper().unwrap().raw());
    assert_eq!(a.shaper().unwrap().input_range(), b.shaper().unwrap().input_range());
    assert_eq!(format!("{:?}", a), format!("{:?}", b));
    assert_eq!(parse("LUT_1D_SIZE q").unwrap_err(), parse("LUT_1D_SIZE q").unwrap_err());
}

#[test]
fn title_is_the_rest_of_the_line() {
    let lut = parse("TITLE \"Film  look\" v2\nLUT_1D_SIZE 1\n0 0 0").unwrap();
    assert_eq!(lut.title(), Some("\"Film  look\" v2"));
    let lut = parse("TITLE  spaced\nTITLE last\nLUT_1D_SIZE 1\n0 0 0").unwrap();
    assert_eq!(lut.title(), Some("last"));
    let lut = parse("TITLE  spaced\nLUT_1D_SIZE 1\n0 0 0").unwrap();
    assert_eq!(lut.title(), Some(" spaced"));
}

#[test]
fn video_range_flags_stand_alone() {
    let lut = parse("LUT_IN_VIDEO_RANGE\nLUT_1D_SIZE 2\n0 0 0\n1 1 1\n").unwrap();
    assert!(lut.in_video_range());
    assert!(!lut.out_video_range());
    let lut = parse("  LUT_OUT_VIDEO_RANGE \r\nLUT_1D_SIZE 1\n0 0 0").unwrap();
    assert!(!lut.in_video_range());
    assert!(lut.out_video_range());
    let lut = parse("LUT_IN_VIDEO_RANGE\nLUT_OUT_VIDEO_RANGE\nLUT_1D_SIZE 1\n0 0 0").unwrap();
    assert!(lut.in_video_range());
    assert!(lut.out_video_range());
    let lut = parse("LUT_1D_SIZE 1\nLUT_OUT_VIDEO_RANGE\n0 0 0").unwrap();
    assert!(!lut.in_video_range());
    assert!(lut.out_video_range());
}

#[test]
fn video_range_flags_ignore_what_follows_the_name() {
    let lut = parse("LUT_IN_VIDEO_RANGE 1\nLUT_1D_SIZE 1\n0 0 0").unwrap();
    assert!(lut.in_video_range());
    assert!(!lut.out_video_range());
    let lut = parse("LUT_OUT_VIDEO_RANGE anything at all\nLUT_1D_SIZE 1\n0 0 0").unwrap();
    assert!(!lut.in_video_range());
    assert!(lut.out_video_range());
}

#[test]
fn other_bare_words_of_the_header_change_nothing() {
    let text = "TITLE\nLUT_1D_SIZE\nDOMAIN_MIN\nlut_in_video_range\nLUT_IN_VIDEO_RANGES\nLUT_1D_SIZE 1\n0 0 0";
    let lut = parse(text).unwrap();
    assert_eq!(lut.title(), None);
    assert!(!lut.in_video_range());
    assert!(!lut.out_video_range());
    assert_eq!(lut.domain_min(), None);
    assert_eq!(lut.cube().size(), 1);
}

#[test]
fn blank_lines_are_skipped_everywhere() {
    let text = "\n   \nLUT_1D_SIZE 2\n\n0 0 0\n\t\n \r\n1 1 1\n";
    let lut = parse(text).unwrap();
    assert_eq!(floats(lut.cube().raw()), vec![0.0, 0.0, 0.0, 1.0, 1.0, 1.0]);
}

#[test]
fn single_token_lines_are_skipped_before_the_first_row() {
    let text = "END\nLUT_1D_SIZE 2\nhello\n0.5\n0 0 0\n1 1 1\n";
    let lut = parse(text).unwrap();
    assert_eq!(floats(lut.cube().raw()), vec![0.0, 0.0, 0.0, 1.0, 1.0, 1.0]);
    assert_eq!(parse("hello\n0.5\n").unwrap_err(), Error::Eof);
}

#[test]
fn single_token_lines_are_invalid_rgb_once_data_has_begun() {
    assert_eq!(
        parse("LUT_1D_SIZE 2\n0 0 0\n0.5\n1 1 1\n").unwrap_err(),
        Error::InvalidRgb("0.5".to_string())
    );
    assert_eq!(
        parse("LUT_1D_SIZE 2\n0 0 0\nhello\n1 1 1\n").unwrap_err(),
        Error::InvalidRgb("hello".to_string())
    );
    assert_eq!(
        parse("LUT_1D_SIZE 1\nLUT_3D_SIZE 1\n0 0 0\n  LUT_IN_VIDEO_RANGE \n1 1 1\n").unwrap_err(),
        Error::InvalidRgb("  LUT_IN_VIDEO_RANGE ".to_string())
    );
    // Comments and blank lines among the rows stay what they are.
    let lut = parse("LUT_1D_SIZE 2\n0 0 0\n#0.5\n\n1 1 1\n").unwrap();
    assert_eq!(floats(lut.cube().raw()), vec![0.0, 0.0, 0.0, 1.0, 1.0, 1.0]);
    assert_eq!(lut.comments(), "#0.5");
}

#[test]
fn lines_are_trimmed_before_they_are_read() {
    let text = "  LUT_1D_SIZE 2  \r\n\t0 0 0\r\n 1\t1 1 \r\n";
    let lut = parse(text).unwrap();
    assert_eq!(lut.cube().size(), 2);
    assert_eq!(floats(lut.cube().raw()), vec![0.0, 0.0, 0.0, 1.0, 1.0, 1.0]);
}

#[test]
fn directive_names_are_case_sensitive() {
    assert_eq!(parse("lut_1d_size 2\n").unwrap_err(), Error::InvalidRgb("lut_1d_size 2".to_string()));
    assert_eq!(parse("Title x y\n").unwrap_err(), Error::InvalidRgb("Title x y".to_string()));
}

#[test]
fn invalid_size_holds_the_argument() {
    for arg in ["x", "-1", "65536", "1.5", " 3", "3 3", "", "0x10"] {
        for name in ["LUT_1D_SIZE", "LUT_3D_SIZE"] {
            let text = format!("{} {}|", name, arg);
            let text = text.replace('|', "\n0 0 0\n");
            let expected = Error::InvalidSize(arg.trim_end().to_string());
            if arg.is_empty() {
                // Nothing follows the name once the line is trimmed: the line is skipped.
                assert_eq!(parse(&text).unwrap_err(), Error::UnexpectedData);
            } else {
                assert_eq!(parse(&text).unwrap_err(), expected, "{:?}", text);
            }
        }
    }
    assert_eq!(parse("LUT_3D_SIZE +2\n").unwrap_err(), Error::Eof);
}

#[test]
fn input_range_goes_to_the_pending_cube() {
    let text = "LUT_1D_SIZE 1\nLUT_1D_INPUT_RANGE 0 4\nLUT_3D_SIZE 1\nLUT_3D_INPUT_RANGE -1 1\n0 0 0\n1 1 1\n";
    let lut = parse(text).unwrap();
    assert_eq!(
        lut.shaper().unwrap().input_range(),
        Some(&InputRange { min: 0.0f32.to_bits(), max: 4.0f32.to_bits() })
    );
    assert_eq!(
        lut.cube().input_range(),
        Some(&InputRange { min: (-1.0f32).to_bits(), max: 1.0f32.to_bits() })
    );
    // Either name sets the range of the pending cube, whatever its dimension.
    let lut = parse("LUT_3D_SIZE 1\nLUT_1D_INPUT_RANGE 2 3\n0 0 0\n").unwrap();
    assert_eq!(
        lut.cube().input_range(),
        Some(&InputRange { min: 2.0f32.to_bits(), max: 3.0f32.to_bits() })
    );
}

#[test]
fn input_range_before_any_cube_is_unexpected() {
    assert_eq!(
        parse("LUT_1D_INPUT_RANGE 0 1\nLUT_1D_SIZE 1\n0 0 0").unwrap_err(),
        Error::UnexpectedInputRange("LUT_1D_INPUT_RANGE 0 1".to_string())
    );
    // It is unexpected before it is looked at.
    assert_eq!(
        parse("  LUT_3D_INPUT_RANGE nonsense").unwrap_err(),
        Error::UnexpectedInputRange("  LUT_3D_INPUT_RANGE nonsense".to_string())
    );
}

#[test]
fn malformed_input_range_is_invalid() {
    for arg in ["0", "0 x", "x 1", "0 1 2", "0  1"] {
        let text = format!("LUT_1D_SIZE 1\nLUT_1D_INPUT_RANGE {}\n0 0 0\n", arg);
        assert_eq!(parse(&text).unwrap_err(), Error::InvalidInputRange(arg.to_string()), "{:?}", arg);
    }
}

#[test]
fn data_before_any_cube_is_unexpected() {
    assert_eq!(parse("0 0 0\n").unwrap_err(), Error::UnexpectedData);
    assert_eq!(parse("TITLE t\n# c\n0.5 0.5 0.5\nLUT_1D_SIZE 1\n").unwrap_err(), Error::UnexpectedData);
}

#[test]
fn malformed_rows_are_invalid_rgb() {
    for row in ["0 0", "0 0 x", "x 0 0", "0 x 0", "0 0 0 0", "0  0 0", "0,0 0", "a b"] {
        let text = format!("LUT_1D_SIZE 2\n0 0 0\n{}\n", row);
        assert_eq!(parse(&text).unwrap_err(), Error::InvalidRgb(row.to_string()), "{:?}", row);
        let text = format!("LUT_1D_SIZE 2\n{}\n", row);
        assert_eq!(parse(&text).unwrap_err(), Error::InvalidRgb(row.to_string()), "{:?}", row);
        // A bad row is reported before a missing cube.
        assert_eq!(parse(row).unwrap_err(), Error::InvalidRgb(row.to_string()), "{:?}", row);
    }
}

#[test]
fn invalid_rgb_holds_the_line_as_given() {
    let given = vec!["LUT_1D_SIZE 1".to_string(), "  0 zero 0 \r\n".to_string()];
    assert_eq!(
        Lut::parse(&given, decode).unwrap_err(),
        Error::InvalidRgb("  0 zero 0 \r\n".to_string())
    );
}

#[test]
fn directives_are_rows_once_data_has_begun() {
    for line in ["TITLE late", "LUT_1D_SIZE 4", "DOMAIN_MIN 0 0 0", "LUT_IN_VIDEO_RANGE 1"] {
        let text = format!("LUT_1D_SIZE 2\n0 0 0\n{}\n1 1 1\n", line);
        assert_eq!(parse(&text).unwrap_err(), Error::InvalidRgb(line.to_string()), "{:?}", line);
    }
}

#[test]
fn a_cube_may_be_filled_by_its_first_row() {
    let lut = parse("LUT_1D_SIZE 1\n0.25 0.5 0.75\n").unwrap();
    assert_eq!(lut.cube().dim(), 1);
    assert_eq!(floats(lut.cube().raw()), vec![0.25, 0.5, 0.75]);
    assert!(lut.shaper().is_none());
    let lut = parse("LUT_3D_SIZE 1\n1 2 3\n4 5 6\n").unwrap();
    assert_eq!(lut.cube().dim(), 3);
    assert_eq!(floats(lut.cube().raw()), vec![1.0, 2.0, 3.0]);
    let lut = parse("LUT_1D_SIZE 1\nLUT_3D_SIZE 1\n1 2 3\n4 5 6\n").unwrap();
    assert_eq!(floats(lut.shaper().unwrap().raw()), vec![1.0, 2.0, 3.0]);
    assert_eq!(floats(lut.cube().raw()), vec![4.0, 5.0, 6.0]);
    assert_eq!(parse("LUT_1D_SIZE 1\nLUT_3D_SIZE 1\n1 2 3\n").unwrap_err(), Error::Eof);
}

#[test]
fn a_cube_without_entries_has_no_room() {
    assert_eq!(parse("LUT_1D_SIZE 0\n0 0 0\n").unwrap_err(), Error::CubeIsFull);
    assert_eq!(parse("LUT_3D_SIZE 0\n0 0 0\n").unwrap_err(), Error::CubeIsFull);
    assert_eq!(parse("LUT_1D_SIZE 0\n").unwrap_err(), Error::Eof);
}

#[test]
fn lines_after_the_last_row_are_not_read() {
    let text = "LUT_1D_SIZE 1\nLUT_1D_SIZE 1\n0 0 0\n1 1 1\nthis is not a row\nLUT_1D_SIZE x\n";
    let lut = parse(text).unwrap();
    assert_eq!(floats(lut.cube().raw()), vec![1.0, 1.0, 1.0]);
    assert_eq!(floats(lut.shaper().unwrap().raw()), vec![0.0, 0.0, 0.0]);
}

#[test]
fn the_first_failure_ends_the_run() {
    let text = "LUT_1D_SIZE x\nLUT_1D_INPUT_RANGE 0 1\n";
    assert_eq!(parse(text).unwrap_err(), Error::InvalidSize("x".to_string()));
    let text = "LUT_1D_INPUT_RANGE 0 1\nLUT_1D_SIZE x\n";
    assert_eq!(
        parse(text).unwrap_err(),
        Error::UnexpectedInputRange("LUT_1D_INPUT_RANGE 0 1".to_string())
    );
}

#[test]
fn parser_takes_lines_one_by_one() {
    let mut parser = Parser::new();
    for line in ["# header", "LUT_1D_SIZE 2", "", "0 0.5 1"] {
        parser = match parser.feed(line, &decode) {
            Step::More(next) => next,
            other => panic!("{:?} after {:?}", other, line),
        };
    }
    match parser.feed("1 0.5 0\n", &decode) {
        Step::Done(lut) => {
            assert_eq!(floats(lut.cube().raw()), vec![0.0, 0.5, 1.0, 1.0, 0.5, 0.0]);
            assert_eq!(lut.comments(), "# header");
        }
        other => panic!("{:?}", other),
    }
}

#[test]
fn parser_fails_on_a_single_token_only_while_collecting() {
    let parser = match Parser::new().feed("LUT_1D_SIZE 2", &decode) {
        Step::More(next) => next,
        other => panic!("{:?}", other),
    };
    let parser = match parser.feed("0.5", &decode) {
        Step::More(next) => next,
        other => panic!("{:?}", other),
    };
    let parser = match parser.feed("0 0 0", &decode) {
        Step::More(next) => next,
        other => panic!("{:?}", other),
    };
    match parser.feed("0.5\n", &decode) {
        Step::Failed(e) => assert_eq!(e, Error::InvalidRgb("0.5\n".to_string())),
        other => panic!("{:?}", other),
    }
}

#[test]
fn parser_reports_the_failing_line() {
    let parser = Parser::new();
    match parser.feed("LUT_3D_SIZE many", &decode) {
        Step::Failed(e) => assert_eq!(e, Error::InvalidSize("many".to_string())),
        other => panic!("{:?}", other),
    }
    match Parser::new().feed("1 2 3", &decode) {
        Step::Failed(e) => assert_eq!(e, Error::UnexpectedData),
        other => panic!("{:?}", other),
    }
}

#[test]
fn parser_ends_with_an_unexpected_end() {
    assert_eq!(Parser::new().end(), Error::Eof);
    let parser = match Parser::new().feed("LUT_1D_SIZE 2", &decode) {
        Step::More(next) => next,
        other => panic!("{:?}", other),
    };
    let parser = match parser.feed("0 0 0", &decode) {
        Step::More(next) => next,
        other => panic!("{:?}", other),
    };
    assert_eq!(parser.end(), Error::Eof);
}
