use vstd::prelude::*;
use vstd::string::*;
use crate::activity::QrVariant;

verus! {

/// Where the token of a QR-code check-in is to come from.
#[derive(Debug, Clone)]
pub enum QrSource {
    /// The token was given.
    Given(String),
    /// Decode the QR code of this image file.
    ImageFile(String),
    /// Capture the screen; `live` keeps capturing, as a refreshing code needs.
    Screen { live: bool, precise: bool },
}

/// Why no token could be had.
#[derive(Clone, Copy, Debug, PartialEq, Eq, Structural)]
pub enum ProofError {
    /// The image directory holds no `png` or `jpg` file.
    NoImageInDirectory,
    /// The QR code of the image holds no `enc` parameter.
    NoTokenInImage,
    /// No QR code with an `enc` parameter was found on screen.
    NoTokenOnScreen,
}

pub open spec fn message_of(e: ProofError) -> Seq<char> {
    match e {
        ProofError::NoImageInDirectory => "no image (`png` or `jpg` file) in the directory"@,
        ProofError::NoTokenInImage => "the QR code holds no `enc` parameter"@,
        ProofError::NoTokenOnScreen => "no `enc` parameter was found on screen"@,
    }
}

impl ProofError {
    /// What to tell the user.
    pub fn message(&self) -> (r: String)
        ensures
            r@ == message_of(*self),
    {
        match self {
            ProofError::NoImageInDirectory => "no image (`png` or `jpg` file) in the directory".to_owned(),
            ProofError::NoTokenInImage => "the QR code holds no `enc` parameter".to_owned(),
            ProofError::NoTokenOnScreen => "no `enc` parameter was found on screen".to_owned(),
        }
    }
}

/// The token source, by priority: the given token, else the image file,
/// else a screen capture (live for a refreshing code).
pub open spec fn qr_source_of(given: Option<String>, image: Option<String>, variant: QrVariant, precise: bool) -> QrSource {
    match given {
        Some(t) => QrSource::Given(t),
        None => match image {
            Some(p) => QrSource::ImageFile(p),
            None => QrSource::Screen { live: variant == QrVariant::Refresh, precise },
        },
    }
}

/// Picks where the token of a QR-code check-in comes from; the image is
/// not read when a token is given.
pub fn qr_source(given: &Option<String>, image: &Option<String>, variant: QrVariant, precise: bool) -> (r: QrSource)
    ensures
        r == qr_source_of(*given, *image, variant, precise),
{
    match given {
        Some(t) => QrSource::Given(t.clone()),
        None => match image {
            Some(p) => QrSource::ImageFile(p.clone()),
            None => QrSource::Screen { live: variant == QrVariant::Refresh, precise },
        },
    }
}

/// The token that `source` yields, where `found` is what reading the image
/// or the screen gave (unused for a given token).
pub open spec fn token_of(source: QrSource, found: Option<String>) -> Result<String, ProofError> {
    match source {
        QrSource::Given(t) => Ok(t),
        QrSource::ImageFile(_) => match found {
            Some(t) => Ok(t),
            None => Err(ProofError::NoTokenInImage),
        },
        QrSource::Screen { .. } => match found {
            Some(t) => Ok(t),
            None => Err(ProofError::NoTokenOnScreen),
        },
    }
}

/// The token of a QR-code check-in, or why there is none.
pub fn qr_token(source: &QrSource, found: Option<String>) -> (r: Result<String, ProofError>)
    ensures
        r == token_of(*source, found),
{
    match source {
        QrSource::Given(t) => Ok(t.clone()),
        QrSource::ImageFile(_) => match found {
            Some(t) => Ok(t),
            None => Err(ProofError::NoTokenInImage),
        },
        QrSource::Screen { .. } => match found {
            Some(t) => Ok(t),
            None => Err(ProofError::NoTokenOnScreen),
        },
    }
}

/// A file of an image directory, with its modification time.
pub struct DirEntry {
    pub name: String,
    pub modified: u64,
}

pub open spec fn has_suffix(s: Seq<char>, suffix: Seq<char>) -> bool {
    s.len() >= suffix.len() && s.subrange(s.len() - suffix.len(), s.len() as int) == suffix
}

/// Whether a file name is that of a `png` or `jpg` image.
pub open spec fn is_image_name(s: Seq<char>) -> bool {
    has_suffix(s, ".png"@) || has_suffix(s, ".jpg"@)
}

fn ends_with(s: &str, suffix: &str) -> (r: bool)
    ensures
        r == has_suffix(s@, suffix@),
{
    let n = s.unicode_len();
    let m = suffix.unicode_len();
    if n < m {
        return false;
    }
    let mut i: usize = 0;
    while i < m
        invariant
            i <= m <= n,
            n == s@.len(),
            m == suffix@.len(),
            forall|j: int| 0 <= j < i ==> s@[n - m + j] == #[trigger] suffix@[j],
        decreases m - i,
    {
        if s.get_char(n - m + i) != suffix.get_char(i) {
            assert(s@.subrange(n - m, n as int)[i as int] != suffix@[i as int]);
            return false;
        }
        i = i + 1;
    }
    assert(s@.subrange(n - m, n as int) =~= suffix@);
    true
}

/// Whether a file name is that of a `png` or `jpg` image.
pub fn is_image(name: &str) -> (r: bool)
    ensures
        r == is_image_name(name@),
{
    ends_with(name, ".png") || ends_with(name, ".jpg")
}

/// The most recently modified image of a directory, the first listed among
/// equally recent ones; none when it holds no image.
pub fn newest_image(entries: &Vec<DirEntry>) -> (r: Option<usize>)
    ensures
        r is None <==> forall|j: int| 0 <= j < entries.len() ==> !is_image_name(#[trigger] entries[j].name@),
        r matches Some(i) ==> {
            &&& i < entries.len()
            &&& is_image_name(entries[i as int].name@)
            &&& forall|j: int|
                0 <= j < entries.len() && is_image_name(#[trigger] entries[j].name@) ==> entries[j].modified
                    <= entries[i as int].modified
            &&& forall|j: int|
                0 <= j < i && is_image_name(#[trigger] entries[j].name@) ==> entries[j].modified
                    < entries[i as int].modified
        },
{
    let mut best: Option<usize> = None;
    let mut i: usize = 0;
    while i < entries.len()
        invariant
            i <= entries.len(),
            best is None <==> forall|j: int| 0 <= j < i ==> !is_image_name(#[trigger] entries[j].name@),
            best matches Some(b) ==> {
                &&& b < i
                &&& is_image_name(entries[b as int].name@)
                &&& forall|j: int|
                    0 <= j < i && is_image_name(#[trigger] entries[j].name@) ==> entries[j].modified
                        <= entries[b as int].modified
                &&& forall|j: int|
                    0 <= j < b && is_image_name(#[trigger] entries[j].name@) ==> entries[j].modified
                        < entries[b as int].modified
            },
        decreases entries.len() - i,
    {
        if is_image(entries[i].name.as_str()) {
            match best {
                None => {
                    best = Some(i);
                },
                Some(b) => {
                    if entries[i].modified > entries[b].modified {
                        best = Some(i);
                    }
                },
            }
        }
        i = i + 1;
    }
    best
}

} // verus!
