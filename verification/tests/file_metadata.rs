use bambu_client::file::ftp::metadata::DateTime;
use bambu_client::file::ftp::metadata::FileMetadata;
use bambu_client::file::ftp::metadata::MetadataError;
use bambu_client::file::ftp::metadata::Permissions;
use chrono::Datelike;

const TESTVEC1: &str = "drw-rw-rw-   1 usr1  grp1           0 Jan 01 1980 foo bar";
const TESTVEC2: &str = "-rw-rw-rw-   1 user2 grp2   912934592 Jan 23 01:27 3D Benchy.gcode.3mf";
const TESTVEC3: &str =
    "-rw-rw-rw-   1 root  root   124213455 Jul 23 2024 Foo Bar Baz Bar.gcode.3mf";

#[test]
fn test_parse_file_metadata() {
    assert_eq!(
        FileMetadata::parse(TESTVEC1).unwrap(),
        FileMetadata {
            chmod: Permissions {
                directory: true,
                readable: true,
                writable: true,
                executable: false
            },
            user: "usr1".to_string(),
            group: "grp1".to_string(),
            size: 0,
            date: DateTime { year: 1980, month: 1, day: 1, hour: 0, minute: 0 },
            filename: "foo bar".to_string()
        }
    );

    assert_eq!(
        FileMetadata::parse(TESTVEC2).unwrap(),
        FileMetadata {
            chmod: Permissions {
                directory: false,
                readable: true,
                writable: true,
                executable: false
            },
            user: "user2".to_string(),
            group: "grp2".to_string(),
            size: 912934592,
            date: DateTime {
                year: chrono::Local::now().year(),
                month: 1,
                day: 23,
                hour: 1,
                minute: 27
            },
            filename: "3D Benchy.gcode.3mf".to_string()
        }
    );

    assert_eq!(
        FileMetadata::parse(TESTVEC3).unwrap(),
        FileMetadata {
            chmod: Permissions {
                directory: false,
                readable: true,
                writable: true,
                executable: false
            },
            user: "root".to_string(),
            group: "root".to_string(),
            size: 124213455,
            date: DateTime { year: 2024, month: 7, day: 23, hour: 0, minute: 0 },
            filename: "Foo Bar Baz Bar.gcode.3mf".to_string()
        }
    );
}

#[test]
fn to_octal_projection() {
    let p = Permissions { directory: false, readable: true, writable: true, executable: false };
    assert_eq!(p.to_octal(), 0o666);
    let p = Permissions { directory: true, readable: true, writable: true, executable: true };
    assert_eq!(p.to_octal(), 0o777);
    let p = Permissions { directory: false, readable: false, writable: false, executable: false };
    assert_eq!(p.to_octal(), 0);
    let p = Permissions { directory: false, readable: true, writable: false, executable: false };
    assert_eq!(p.to_octal(), 0o444);
}

#[test]
fn metadata_errors() {
    // too few tokens
    assert_eq!(
        FileMetadata::parse_with_year("-rw-rw-rw- 1 u g 5 Jan 01", 2024),
        Err(MetadataError::InvalidLine)
    );
    // bad mode string
    assert_eq!(
        FileMetadata::parse_with_year("xrw 1 u g 5 Jan 01 2024 f", 2024),
        Err(MetadataError::InvalidChmod)
    );
    // bad size
    assert_eq!(
        FileMetadata::parse_with_year("-rw-rw-rw- 1 u g 5x Jan 01 2024 f", 2024),
        Err(MetadataError::InvalidSize)
    );
    // bad day
    assert_eq!(
        FileMetadata::parse_with_year("-rw-rw-rw- 1 u g 5 Jan xx 2024 f", 2024),
        Err(MetadataError::InvalidDay)
    );
    // bad time
    assert_eq!(
        FileMetadata::parse_with_year("-rw-rw-rw- 1 u g 5 Jan 01 25:00 f", 2024),
        Err(MetadataError::InvalidTime)
    );
    // bad year
    assert_eq!(
        FileMetadata::parse_with_year("-rw-rw-rw- 1 u g 5 Jan 01 20241 f", 2024),
        Err(MetadataError::InvalidDate)
    );
    // calendar validation: no 30th of February, but a leap 29th exists
    assert_eq!(
        FileMetadata::parse_with_year("-rw-rw-rw- 1 u g 5 Feb 30 2024 f", 2024),
        Err(MetadataError::InvalidDate)
    );
    assert!(FileMetadata::parse_with_year("-rw-rw-rw- 1 u g 5 Feb 29 2024 f", 2024).is_ok());
    assert_eq!(
        FileMetadata::parse_with_year("-rw-rw-rw- 1 u g 5 Feb 29 2023 f", 2024),
        Err(MetadataError::InvalidDate)
    );
}

#[test]
fn parse_with_explicit_year_uses_it() {
    let m = FileMetadata::parse_with_year(TESTVEC2, 1999).unwrap();
    assert_eq!(m.date, DateTime { year: 1999, month: 1, day: 23, hour: 1, minute: 27 });
}

#[test]
fn month_abbreviations_are_case_insensitive() {
    let m = FileMetadata::parse_with_year("-rw-rw-rw- 1 u g 5 DEC 31 2024 f", 2024).unwrap();
    assert_eq!(m.date.month, 12);
    let m = FileMetadata::parse_with_year("-rw-rw-rw- 1 u g 5 sep 01 2024 f", 2024).unwrap();
    assert_eq!(m.date.month, 9);
}

#[test]
fn parse_listing_lines() {
    let lines = vec![TESTVEC1.to_string(), TESTVEC3.to_string()];
    let parsed = bambu_client::file::ftp::metadata::parse_listing(&lines, 2024).unwrap();
    assert_eq!(parsed.len(), 2);
    assert_eq!(parsed[0].filename, "foo bar");
    assert_eq!(parsed[1].size, 124213455);

    let bad = vec![TESTVEC1.to_string(), "nonsense".to_string()];
    assert_eq!(
        bambu_client::file::ftp::metadata::parse_listing(&bad, 2024),
        Err(MetadataError::InvalidLine)
    );
}
