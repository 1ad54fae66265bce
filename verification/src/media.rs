//! Content negotiation: classifying content types and parsing vendor-tree
//! Accept values of the shape
//! `application/vnd.<vendor>[.<version>[.<param>]][+<format>]`.
use vstd::prelude::*;

verus! {

use vstd::string::StrSliceExecFns;
use crate::strutil::{str_eq, str_starts_with};

/// How a payload is written: JSON, plain text, or something else carrying
/// its raw content type.
#[derive(Debug, PartialEq)]
pub enum Format {
    JsonFormat,
    PlainTextFormat,
    OtherFormat(String),
}

/// The shadow of a `Format`.
pub enum FormatV {
    Json,
    PlainText,
    Other(Seq<char>),
}

/// The shadow of a format.
pub open spec fn view_format(f: Format) -> FormatV {
    match f {
        Format::JsonFormat => FormatV::Json,
        Format::PlainTextFormat => FormatV::PlainText,
        Format::OtherFormat(raw) => FormatV::Other(raw@),
    }
}

/// The negotiated media descriptor.
#[derive(Debug, PartialEq)]
pub struct Media {
    pub vendor: String,
    pub version: Option<String>,
    pub param: Option<String>,
    pub format: Format,
}

/// The shadow of a media descriptor.
pub struct MediaV {
    pub vendor: Seq<char>,
    pub version: Option<Seq<char>>,
    pub param: Option<Seq<char>>,
    pub format: FormatV,
}

impl Media {
    /// The shadow of this descriptor.
    pub open spec fn view(&self) -> MediaV {
        MediaV {
            vendor: self.vendor@,
            version: match self.version {
                Some(v) => Some(v@),
                None => None,
            },
            param: match self.param {
                Some(p) => Some(p@),
                None => None,
            },
            format: view_format(self.format),
        }
    }
}

/// The characters of a content type before any `;` parameter.
pub open spec fn spec_essence_end(s: Seq<char>, i: int) -> int
    decreases s.len() - i,
    when 0 <= i <= s.len()
{
    if i < s.len() && s[i] != ';' {
        spec_essence_end(s, i + 1)
    } else {
        i
    }
}

/// The classification of a content type: `text/plain` is plain text,
/// `application/json` is JSON (parameters after `;` are ignored), and
/// anything else keeps its raw text.
pub open spec fn spec_classify(s: Seq<char>) -> FormatV {
    let essence = s.subrange(0, spec_essence_end(s, 0));
    if essence == "text/plain"@ {
        FormatV::PlainText
    } else if essence == "application/json"@ {
        FormatV::Json
    } else {
        FormatV::Other(s)
    }
}

/// The default media: vendor `default`, no version, plain text.
pub open spec fn spec_default_media() -> MediaV {
    MediaV { vendor: "default"@, version: None, param: None, format: FormatV::PlainText }
}

impl Format {
    /// Classifies a content type string.
    pub fn from_mime(ct: &str) -> (r: Format)
        ensures
            view_format(r) == spec_classify(ct@),
    {
        let n = ct.unicode_len();
        let mut j: usize = 0;
        while j < n && ct.get_char(j) != ';'
            invariant
                0 <= j <= n,
                n == ct@.len(),
                spec_essence_end(ct@, 0) == spec_essence_end(ct@, j as int),
            decreases n - j,
        {
            j += 1;
        }
        proof {
            assert(spec_essence_end(ct@, j as int) == j);
        }
        let essence = ct.substring_char(0, j);
        proof {
            assert(essence@ =~= ct@.subrange(0, spec_essence_end(ct@, 0)));
        }
        if str_eq(essence, "text/plain") {
            Format::PlainTextFormat
        } else if str_eq(essence, "application/json") {
            Format::JsonFormat
        } else {
            Format::OtherFormat(ct.to_owned())
        }
    }
}

/// Whether a character may appear in a vendor name.
pub open spec fn spec_vendor_char(c: char) -> bool {
    ('a' <= c && c <= 'z') || ('A' <= c && c <= 'Z') || c == '_' || c == '-'
}

/// Whether a character may appear in a version, sub-parameter or format.
pub open spec fn spec_alnum(c: char) -> bool {
    ('a' <= c && c <= 'z') || ('A' <= c && c <= 'Z') || ('0' <= c && c <= '9')
}

/// Whether a vendor-tree value starts at position `p`: the text `vnd.`
/// followed by at least one vendor character.
pub open spec fn spec_vnd_at(s: Seq<char>, p: int) -> bool {
    &&& p + 4 < s.len()
    &&& s[p] == 'v'
    &&& s[p + 1] == 'n'
    &&& s[p + 2] == 'd'
    &&& s[p + 3] == '.'
    &&& spec_vendor_char(s[p + 4])
}

/// The first position at which a vendor-tree value starts, or -1.
pub open spec fn spec_find_vnd(s: Seq<char>, i: int) -> int
    decreases s.len() - i,
    when 0 <= i <= s.len()
{
    if i + 4 >= s.len() {
        -1
    } else if spec_vnd_at(s, i) {
        i
    } else {
        spec_find_vnd(s, i + 1)
    }
}

/// `spec_find_vnd` names the first start position, and -1 means none.
pub proof fn lemma_find_vnd(s: Seq<char>, i: int)
    requires
        0 <= i <= s.len(),
    ensures
        ({
            let p = spec_find_vnd(s, i);
            &&& (p == -1 <==> (forall|q: int| i <= q < s.len() ==> !spec_vnd_at(s, q)))
            &&& (p != -1 ==> i <= p && p + 4 < s.len() && spec_vnd_at(s, p) && (forall|q: int|
                i <= q < p ==> !spec_vnd_at(s, q)))
        }),
    decreases s.len() - i,
{
    if i + 4 >= s.len() {
        assert forall|q: int| i <= q < s.len() implies !spec_vnd_at(s, q) by {}
    } else if !spec_vnd_at(s, i) {
        lemma_find_vnd(s, i + 1);
    }
}

/// The first position at or after `i` whose character cannot appear in a
/// vendor name.
pub open spec fn spec_vendor_end(s: Seq<char>, i: int) -> int
    decreases s.len() - i,
    when 0 <= i <= s.len()
{
    if i < s.len() && spec_vendor_char(s[i]) {
        spec_vendor_end(s, i + 1)
    } else {
        i
    }
}

/// The vendor run never leaves the text.
pub proof fn lemma_vendor_end(s: Seq<char>, i: int)
    requires
        0 <= i <= s.len(),
    ensures
        i <= spec_vendor_end(s, i) <= s.len(),
    decreases s.len() - i,
{
    if i < s.len() && spec_vendor_char(s[i]) {
        lemma_vendor_end(s, i + 1);
    }
}

/// The first position at or after `i` whose character is not
/// alphanumeric.
pub open spec fn spec_alnum_end(s: Seq<char>, i: int) -> int
    decreases s.len() - i,
    when 0 <= i <= s.len()
{
    if i < s.len() && spec_alnum(s[i]) {
        spec_alnum_end(s, i + 1)
    } else {
        i
    }
}

/// The alphanumeric run never leaves the text.
pub proof fn lemma_alnum_end(s: Seq<char>, i: int)
    requires
        0 <= i <= s.len(),
    ensures
        i <= spec_alnum_end(s, i) <= s.len(),
    decreases s.len() - i,
{
    if i < s.len() && spec_alnum(s[i]) {
        lemma_alnum_end(s, i + 1);
    }
}

/// The pieces of the first vendor-tree value found in the text.
pub struct VendorPartsV {
    pub vendor: Seq<char>,
    pub version: Option<Seq<char>>,
    pub param: Option<Seq<char>>,
    pub format: Option<Seq<char>>,
}

/// A `.` followed by an alphanumeric run at position `e`, when there is
/// one: the run's bounds.
pub open spec fn spec_dot_group(s: Seq<char>, e: int) -> Option<(int, int)> {
    if e + 1 < s.len() && s[e] == '.' && spec_alnum(s[e + 1]) {
        Some((e + 1, spec_alnum_end(s, e + 1)))
    } else {
        None
    }
}

/// The vendor-tree pieces read from the first `vnd.` occurrence: the
/// vendor run, then an optional `.version`, then an optional `.param`,
/// then an optional `+format`; or `None` when no vendor-tree value is
/// anywhere in the text.
pub open spec fn spec_vendor_scan(s: Seq<char>) -> Option<VendorPartsV> {
    let p = spec_find_vnd(s, 0);
    if p == -1 {
        None
    } else {
        let ve = spec_vendor_end(s, p + 4);
        let vendor = s.subrange(p + 4, ve);
        let (version, e1): (Option<Seq<char>>, int) = match spec_dot_group(s, ve) {
            Some((a, b)) => (Some(s.subrange(a, b)), b),
            None => (None, ve),
        };
        let (param, e2): (Option<Seq<char>>, int) = if version is Some {
            match spec_dot_group(s, e1) {
                Some((a, b)) => (Some(s.subrange(a, b)), b),
                None => (None, e1),
            }
        } else {
            (None, e1)
        };
        let format: Option<Seq<char>> = if e2 + 1 < s.len() && s[e2] == '+' && spec_alnum(
            s[e2 + 1],
        ) {
            Some(s.subrange(e2 + 1, spec_alnum_end(s, e2 + 1)))
        } else {
            None
        };
        Some(VendorPartsV { vendor, version, param, format })
    }
}

/// An absent group from an empty string: scanned pieces follow the
/// convention that an empty capture stands for nothing.
pub fn present_or_none(string: String) -> (r: Option<String>)
    ensures
        match r {
            Some(s) => s@ == string@ && string@.len() > 0,
            None => string@.len() == 0,
        },
{
    if string.as_str().unicode_len() == 0 {
        None
    } else {
        Some(string)
    }
}

/// The pieces of the first vendor-tree value in a text.
pub struct VendorParts {
    pub vendor: String,
    pub version: Option<String>,
    pub param: Option<String>,
    pub format: Option<String>,
}

impl VendorParts {
    /// The shadow of these pieces.
    pub open spec fn view(&self) -> VendorPartsV {
        VendorPartsV {
            vendor: self.vendor@,
            version: match self.version {
                Some(v) => Some(v@),
                None => None,
            },
            param: match self.param {
                Some(v) => Some(v@),
                None => None,
            },
            format: match self.format {
                Some(v) => Some(v@),
                None => None,
            },
        }
    }
}

/// Finds the first `vnd.` start in the text.
fn find_vnd(s: &str) -> (r: Option<usize>)
    ensures
        match r {
            Some(p) => spec_find_vnd(s@, 0) == p as int && p + 4 < s@.len(),
            None => spec_find_vnd(s@, 0) == -1,
        },
{
    let n = s.unicode_len();
    let mut i: usize = 0;
    proof {
        lemma_find_vnd(s@, 0);
    }
    while i < n
        invariant
            0 <= i <= n,
            n == s@.len(),
            forall|q: int| 0 <= q < i ==> !spec_vnd_at(s@, q),
        decreases n - i,
    {
        if n - i >= 5 && s.get_char(i) == 'v' && s.get_char(i + 1) == 'n' && s.get_char(i + 2)
            == 'd' && s.get_char(i + 3) == '.' && is_vendor_char(s.get_char(i + 4)) {
            proof {
                lemma_find_vnd(s@, 0);
                assert(spec_vnd_at(s@, i as int));
            }
            return Some(i);
        }
        proof {
            assert(!spec_vnd_at(s@, i as int));
        }
        i += 1;
    }
    proof {
        lemma_find_vnd(s@, 0);
    }
    None
}

/// Whether a character may appear in a vendor name.
fn is_vendor_char(c: char) -> (r: bool)
    ensures
        r == spec_vendor_char(c),
{
    ('a' <= c && c <= 'z') || ('A' <= c && c <= 'Z') || c == '_' || c == '-'
}

/// Whether a character is alphanumeric.
fn is_alnum(c: char) -> (r: bool)
    ensures
        r == spec_alnum(c),
{
    ('a' <= c && c <= 'z') || ('A' <= c && c <= 'Z') || ('0' <= c && c <= '9')
}

/// The end of the vendor run starting at `i`.
fn vendor_end(s: &str, i: usize) -> (r: usize)
    requires
        i <= s@.len(),
    ensures
        r as int == spec_vendor_end(s@, i as int),
        i <= r <= s@.len(),
{
    proof {
        lemma_vendor_end(s@, i as int);
    }
    let n = s.unicode_len();
    let mut j: usize = i;
    while j < n && is_vendor_char(s.get_char(j))
        invariant
            i <= j <= n,
            n == s@.len(),
            spec_vendor_end(s@, i as int) == spec_vendor_end(s@, j as int),
        decreases n - j,
    {
        j += 1;
    }
    proof {
        assert(spec_vendor_end(s@, j as int) == j);
    }
    j
}

/// The end of the alphanumeric run starting at `i`.
fn alnum_end(s: &str, i: usize) -> (r: usize)
    requires
        i <= s@.len(),
    ensures
        r as int == spec_alnum_end(s@, i as int),
        i <= r <= s@.len(),
{
    proof {
        lemma_alnum_end(s@, i as int);
    }
    let n = s.unicode_len();
    let mut j: usize = i;
    while j < n && is_alnum(s.get_char(j))
        invariant
            i <= j <= n,
            n == s@.len(),
            spec_alnum_end(s@, i as int) == spec_alnum_end(s@, j as int),
        decreases n - j,
    {
        j += 1;
    }
    proof {
        assert(spec_alnum_end(s@, j as int) == j);
    }
    j
}

/// Reads the first vendor-tree value out of a text, piece by piece.
pub fn vendor_scan(s: &str) -> (r: Option<VendorParts>)
    ensures
        match r {
            Some(parts) => spec_vendor_scan(s@) == Some(parts.view()),
            None => spec_vendor_scan(s@) is None,
        },
{
    let n = s.unicode_len();
    let p = match find_vnd(s) {
        Some(p) => p,
        None => {
            return None;
        },
    };
    let ve = vendor_end(s, p + 4);
    let vendor = s.substring_char(p + 4, ve).to_owned();
    let mut e: usize = ve;
    let version: Option<String> = if n - e >= 2 && s.get_char(e) == '.' && is_alnum(
        s.get_char(e + 1),
    ) {
        let b = alnum_end(s, e + 1);
        let v = s.substring_char(e + 1, b).to_owned();
        e = b;
        Some(v)
    } else {
        None
    };
    let param: Option<String> = if version.is_some() && n - e >= 2 && s.get_char(e) == '.'
        && is_alnum(s.get_char(e + 1)) {
        let b = alnum_end(s, e + 1);
        let v = s.substring_char(e + 1, b).to_owned();
        e = b;
        Some(v)
    } else {
        None
    };
    let format: Option<String> = if n - e >= 2 && s.get_char(e) == '+' && is_alnum(
        s.get_char(e + 1),
    ) {
        let b = alnum_end(s, e + 1);
        Some(s.substring_char(e + 1, b).to_owned())
    } else {
        None
    };
    let parts = VendorParts { vendor, version, param, format };
    proof {
        assert(spec_vendor_scan(s@) == Some(parts.view()));
    }
    Some(parts)
}

impl Media {
    /// A copy of this descriptor.
    pub fn duplicate(&self) -> (r: Media)
        ensures
            r.view() == self.view(),
    {
        Media {
            vendor: self.vendor.clone(),
            version: match &self.version {
                Some(v) => Some(v.clone()),
                None => None,
            },
            param: match &self.param {
                Some(p) => Some(p.clone()),
                None => None,
            },
            format: match &self.format {
                Format::JsonFormat => Format::JsonFormat,
                Format::PlainTextFormat => Format::PlainTextFormat,
                Format::OtherFormat(raw) => Format::OtherFormat(raw.clone()),
            },
        }
    }

    /// The default media: vendor `default`, no version, plain text.
    pub fn default() -> (r: Media)
        ensures
            r.view() == spec_default_media(),
    {
        proof {
            reveal_strlit("default");
        }
        let m = Media {
            vendor: String::from_str("default"),
            version: None,
            param: None,
            format: Format::PlainTextFormat,
        };
        m
    }

    /// The media derived from a bare content type: vendor `default`, and
    /// the type's format classification.
    pub fn from_mime(ct: &str) -> (r: Media)
        ensures
            r.view() == (MediaV {
                vendor: "default"@,
                version: None,
                param: None,
                format: spec_classify(ct@),
            }),
    {
        Media {
            vendor: String::from_str("default"),
            version: None,
            param: None,
            format: Format::from_mime(ct),
        }
    }

    /// What `from_vendor` returns: the vendor-tree pieces of an
    /// `application/...` content type, with `json` and `txt` formats
    /// mapped to their classifications and anything else classified from
    /// the whole text.
    pub open spec fn spec_from_vendor(s: Seq<char>) -> Option<MediaV> {
        if !"application/"@.is_prefix_of(s) {
            None
        } else {
            match spec_vendor_scan(s) {
                None => None,
                Some(parts) => Some(
                    MediaV {
                        vendor: parts.vendor,
                        version: parts.version,
                        param: parts.param,
                        format: match parts.format {
                            Some(f) => if f == "json"@ {
                                FormatV::Json
                            } else if f == "txt"@ {
                                FormatV::PlainText
                            } else {
                                spec_classify(s)
                            },
                            None => spec_classify(s),
                        },
                    },
                ),
            }
        }
    }

    /// Parses a vendor-tree Accept value.
    pub fn from_vendor(ct: &str) -> (r: Option<Media>)
        ensures
            match r {
                Some(m) => Media::spec_from_vendor(ct@) == Some(m.view()),
                None => Media::spec_from_vendor(ct@) is None,
            },
    {
        if !str_starts_with(ct, "application/") {
            return None;
        }
        let parts = match vendor_scan(ct) {
            Some(parts) => parts,
            None => {
                return None;
            },
        };
        let format = match &parts.format {
            Some(f) => {
                if str_eq(f.as_str(), "json") {
                    Format::JsonFormat
                } else if str_eq(f.as_str(), "txt") {
                    Format::PlainTextFormat
                } else {
                    Format::from_mime(ct)
                }
            },
            None => Format::from_mime(ct),
        };
        Some(Media { vendor: parts.vendor, version: parts.version, param: parts.param, format })
    }
}

} // verus!
