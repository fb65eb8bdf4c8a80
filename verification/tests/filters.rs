use coreos_install::filters::{
    collect_partition_filters, parse_partition_filters, FilterError, PartitionFilter,
    PartitionIndex,
};
use coreos_install::globs::GlobError;
use coreos_install::number::NumberError;

#[test]
fn test_parse_partition_filters() {
    let g = |v| PartitionFilter::Label(glob::Pattern::new(v).unwrap().as_str().to_string());
    let i = |v| Some(PartitionIndex::new(v).unwrap());

    assert_eq!(
        parse_partition_filters(&["foo", "z*b?", ""], &["1", "7-7", "2-4", "-3", "4-"]).unwrap(),
        vec![
            g("foo"),
            g("z*b?"),
            g(""),
            PartitionFilter::Index(i(1), i(1)),
            PartitionFilter::Index(i(7), i(7)),
            PartitionFilter::Index(i(2), i(4)),
            PartitionFilter::Index(None, i(3)),
            PartitionFilter::Index(i(4), None)
        ]
    );

    let bad_globs = vec![("***", "couldn't parse label glob '***'")];
    for (glob, err) in bad_globs {
        assert_eq!(
            &parse_partition_filters(&["f", glob, "z*"], &["7-", "34"])
                .unwrap_err()
                .message(),
            err
        );
    }

    let bad_ranges = vec![
        ("", "both ends of partition index range '' cannot be open"),
        ("-", "both ends of partition index range '-' cannot be open"),
        ("--", "couldn't parse partition index range '--'"),
        ("0", "partition index cannot be zero"),
        ("-2-3", "couldn't parse partition index range '-2-3'"),
        ("23q", "couldn't parse partition index '23q'"),
        ("23-45.7", "couldn't parse partition index '45.7'"),
        ("0x7", "couldn't parse partition index '0x7'"),
        (
            "9-7",
            "start of partition index range '9-7' cannot be greater than end",
        ),
    ];
    for (range, err) in bad_ranges {
        assert_eq!(
            &parse_partition_filters(&["f", "z*"], &["7-", range, "34"])
                .unwrap_err()
                .message(),
            err
        );
    }
}

/// The glob patterns in the filters are those that the glob crate takes.
#[test]
fn labels_are_held_against_the_glob_crate() {
    for label in ["a[bc", "a**", "**a", "a/**/b", "[!x]", "[]", "plain", "**", "?", "[***]"] {
        let parsed = parse_partition_filters(&[label], &[]);
        match glob::Pattern::new(label) {
            Ok(pattern) => assert_eq!(
                parsed.unwrap(),
                vec![PartitionFilter::Label(pattern.as_str().to_string())]
            ),
            Err(error) => assert_eq!(
                parsed.unwrap_err(),
                FilterError::LabelGlob {
                    glob: label.to_string(),
                    cause: GlobError {
                        position: error.pos,
                        reason: error.msg.to_string()
                    },
                }
            ),
        }
    }
}

#[test]
fn glob_error_says_where_and_why() {
    assert_eq!(
        parse_partition_filters(&["***"], &[]).unwrap_err(),
        FilterError::LabelGlob {
            glob: "***".to_string(),
            cause: GlobError {
                position: 2,
                reason: "wildcards are either regular `*` or recursive `**`".to_string(),
            },
        }
    );
}

#[test]
fn three_stars_are_the_error() {
    assert!(matches!(
        parse_partition_filters(&["f", "***", "z*"], &[]).unwrap_err(),
        FilterError::LabelGlob { glob, .. } if glob == "***"
    ));
}

#[test]
fn first_error_decides() {
    assert_eq!(
        parse_partition_filters(&["ok"], &["0", "9-7", "x"]).unwrap_err(),
        FilterError::ZeroIndex
    );
    assert_eq!(
        parse_partition_filters(&["ok"], &["1", "9-7", "x"]).unwrap_err(),
        FilterError::ReversedRange {
            range: "9-7".to_string()
        }
    );
    // of the two ends of a range, the start comes first
    assert_eq!(
        parse_partition_filters(&[], &["a-b"]).unwrap_err(),
        FilterError::IndexNumber {
            index: "a".to_string(),
            cause: NumberError::InvalidDigit,
        }
    );
    // labels come before indexes
    assert!(matches!(
        parse_partition_filters(&["[", "***"], &["0"]).unwrap_err(),
        FilterError::LabelGlob { glob, .. } if glob == "["
    ));
}

#[test]
fn given_glob_errors_decide() {
    let cause = GlobError {
        position: 7,
        reason: "because".to_string(),
    };
    let globs = vec![None, Some(cause.clone())];
    assert_eq!(
        collect_partition_filters(&["a", "b"], &globs, &["0"]).unwrap_err(),
        FilterError::LabelGlob {
            glob: "b".to_string(),
            cause
        }
    );
    let i = |v| PartitionIndex::new(v);
    assert_eq!(
        collect_partition_filters(&["***"], &vec![None], &["5"]).unwrap(),
        vec![
            PartitionFilter::Label("***".to_string()),
            PartitionFilter::Index(i(5), i(5)),
        ]
    );
}

#[test]
fn index_numbers() {
    let one = |text: &str| parse_partition_filters(&[], &[text]);
    let i = |v| PartitionIndex::new(v);
    assert_eq!(
        one("+12").unwrap(),
        vec![PartitionFilter::Index(i(12), i(12))]
    );
    assert_eq!(
        one("007").unwrap(),
        vec![PartitionFilter::Index(i(7), i(7))]
    );
    assert_eq!(
        one("4294967295-").unwrap(),
        vec![PartitionFilter::Index(i(4294967295), None)]
    );
    for bad in ["4294967296", "99999999999999999999", "+", "++1", " 1", "1 ", "1_0", "\u{0663}"] {
        let found = one(bad).unwrap_err();
        assert!(matches!(&found, FilterError::IndexNumber { index, .. } if index == bad));
        assert_eq!(
            found.cause().unwrap(),
            bad.parse::<u32>().unwrap_err().to_string()
        );
    }
    assert_eq!(one("0-3").unwrap_err(), FilterError::ZeroIndex);
    assert_eq!(one("3-0").unwrap_err(), FilterError::ZeroIndex);
    assert_eq!(
        one("1-2-3").unwrap_err(),
        FilterError::RangeSyntax {
            range: "1-2-3".to_string()
        }
    );
    assert_eq!(
        one("-").unwrap_err(),
        FilterError::OpenRange {
            range: "-".to_string()
        }
    );
}

#[test]
fn reading_a_number_stops_at_what_is_wrong() {
    let one = |text: &str| match parse_partition_filters(&[], &[text]).unwrap_err() {
        FilterError::IndexNumber { cause, .. } => cause,
        other => panic!("{:?}", other),
    };
    for (text, cause) in [
        ("23q", NumberError::InvalidDigit),
        ("+", NumberError::InvalidDigit),
        ("4294967296", NumberError::TooLarge),
        ("99999999999x", NumberError::TooLarge),
        ("+99999999999x", NumberError::TooLarge),
        ("4294967295x", NumberError::InvalidDigit),
        ("x99999999999", NumberError::InvalidDigit),
        ("00000000000000000000001q", NumberError::InvalidDigit),
    ] {
        assert_eq!(one(text), cause);
        assert_eq!(
            cause.text(),
            text.parse::<u32>().unwrap_err().to_string()
        );
    }
    assert_eq!(
        NumberError::InvalidDigit.text(),
        "invalid digit found in string"
    );
    assert_eq!(
        NumberError::TooLarge.text(),
        "number too large to fit in target type"
    );
}

#[test]
fn errors_say_what_lies_beneath() {
    for label in ["***", "a[bc", "0123456789[x"] {
        assert_eq!(
            parse_partition_filters(&[label], &[]).unwrap_err().cause().unwrap(),
            glob::Pattern::new(label).unwrap_err().to_string()
        );
    }
    assert_eq!(
        parse_partition_filters(&["***"], &[]).unwrap_err().cause().unwrap(),
        "Pattern syntax error near position 2: wildcards are either regular `*` or recursive `**`"
    );
    for range in ["0", "-", "9-7", "1-2-3"] {
        assert_eq!(parse_partition_filters(&[], &[range]).unwrap_err().cause(), None);
    }
}

#[test]
fn partition_indexes_count_from_one() {
    assert_eq!(PartitionIndex::new(0), None);
    assert_eq!(PartitionIndex::new(3).unwrap().get(), 3);
}

#[test]
fn written_ranges_read_back() {
    for (from, to) in [(1, 1), (9, 10), (128, 4294967295)] {
        assert_eq!(
            parse_partition_filters(&[], &[&format!("{}-{}", from, to)]).unwrap(),
            vec![PartitionFilter::Index(
                PartitionIndex::new(from),
                PartitionIndex::new(to)
            )]
        );
    }
}

#[test]
fn nothing_to_keep() {
    assert_eq!(parse_partition_filters(&[], &[]).unwrap(), vec![]);
}
