//! Vendor-tree parsing and content-type classification.
use rustless::media::{present_or_none, vendor_scan, Format, Media};

#[test]
fn media_asset_regexp() {
    let captures = vendor_scan("application/vnd.github.v3.raw+json").unwrap();
    assert_eq!(captures.vendor, "github");
    assert_eq!(captures.version.as_deref(), Some("v3"));
    assert_eq!(captures.param.as_deref(), Some("raw"));
    assert_eq!(captures.format.as_deref(), Some("json"));

    let captures = vendor_scan("application/vnd.github.v3+json").unwrap();
    assert_eq!(captures.vendor, "github");
    assert_eq!(captures.version.as_deref(), Some("v3"));
    assert_eq!(captures.param, None);
    assert_eq!(captures.format.as_deref(), Some("json"));

    let captures = vendor_scan("application/vnd.github+json").unwrap();
    assert_eq!(captures.vendor, "github");
    assert_eq!(captures.version, None);
    assert_eq!(captures.param, None);
    assert_eq!(captures.format.as_deref(), Some("json"));

    let captures = vendor_scan("application/vnd.github").unwrap();
    assert_eq!(captures.vendor, "github");
    assert_eq!(captures.version, None);
    assert_eq!(captures.param, None);
    assert_eq!(captures.format, None);

    let captures = vendor_scan("application/vnd");
    assert!(captures.is_none());
}

#[test]
fn assert_media() {
    match Media::from_mime("application/json").format {
        Format::JsonFormat => (),
        _ => panic!("Wrong format"),
    }

    match Media::from_mime("text/plain").format {
        Format::PlainTextFormat => (),
        _ => panic!("Wrong format"),
    }

    match Media::from_mime("application/octet-stream").format {
        Format::OtherFormat(_) => (),
        _ => panic!("Wrong format"),
    }
}

#[test]
fn empty_groups_stand_for_nothing() {
    assert_eq!(present_or_none(String::new()), None);
    assert_eq!(present_or_none("v3".to_string()), Some("v3".to_string()));
}

#[test]
fn media_from_vendor_values() {
    let media = Media::from_vendor("application/vnd.infoapi.v1+json").unwrap();
    assert_eq!(media.vendor, "infoapi");
    assert_eq!(media.version.as_deref(), Some("v1"));
    assert!(matches!(media.format, Format::JsonFormat));

    assert!(Media::from_vendor("text/vnd.foo").is_none());
    assert!(Media::from_vendor("application/json").is_none());

    let media = Media::from_vendor("application/vnd.foo.v2+txt").unwrap();
    assert!(matches!(media.format, Format::PlainTextFormat));

    let media = Media::from_vendor("application/vnd.foo.v2+xml").unwrap();
    assert!(matches!(media.format, Format::OtherFormat(_)));
}
