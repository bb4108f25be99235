use rssbox::util::number::format_number_with_commas;

#[test]
fn test_format_number_with_commas() {
    let verify = vec![
        "", "1.23", "12.12", "123.12", "1,234.12", "1", "12", "123", "1,234", "123,456",
    ];

    let mut output = vec![];
    for item in vec![
        "", "1.23", "12.12", "123.12", "1234.12", "1", "12", "123", "1234", "123456",
    ] {
        output.push(format_number_with_commas(&item));
    }

    assert_eq!(verify, output);
}

#[test]
fn format_number_groups_long_numbers() {
    assert_eq!(format_number_with_commas("1234567"), "1,234,567");
    assert_eq!(format_number_with_commas("1234567.891011"), "1,234,567.891011");
    assert_eq!(format_number_with_commas("100000"), "100,000");
}

#[test]
fn format_number_keeps_what_follows_the_first_point() {
    assert_eq!(format_number_with_commas(".5"), ".5");
    assert_eq!(format_number_with_commas("1234.5.6789"), "1,234.5.6789");
}
