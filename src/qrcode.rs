use vstd::prelude::*;
use vstd::string::*;
use crate::activity::QrVariant;
use crate::location::{
    candidates, opt_seq, parse_location, location_text, preset_for, resolve_candidates, Location, Preset, SavedLocation,
};
use crate::proof_source::{qr_source, qr_source_of, QrSource};

verus! {

/// The options of a QR-code check-in run.
pub struct DefaultQrCodeSignner {
    /// A location written `addr,lon,lat,alt`, or an address label alone.
    pub location_str: Option<String>,
    /// An image file, or a directory whose newest image is taken.
    pub path: Option<String>,
    /// The `enc` token, when given.
    pub enc: Option<String>,
    pub precisely: bool,
    pub no_rand_shift: bool,
}

/// `l` with its address label replaced by `addr`.
pub open spec fn relabelled(l: Location, addr: Seq<char>) -> (Seq<char>, Seq<char>, Seq<char>, Seq<char>) {
    (addr, l.lon@, l.lat@, l.alt@)
}

impl DefaultQrCodeSignner {
    pub fn new(
        location_str: Option<String>,
        path: Option<String>,
        enc: Option<String>,
        precisely: bool,
        no_rand_shift: bool,
    ) -> (r: DefaultQrCodeSignner)
        ensures
            r.location_str == location_str,
            r.path == path,
            r.enc == enc,
            r.precisely == precisely,
            r.no_rand_shift == no_rand_shift,
    {
        DefaultQrCodeSignner { location_str, path, enc, precisely, no_rand_shift }
    }

    /// Where the token comes from: the given `enc`, else the image, else the
    /// screen.
    pub fn token_source(&self, variant: QrVariant) -> (r: QrSource)
        ensures
            r == qr_source_of(self.enc, self.path, variant, self.precisely),
    {
        qr_source(&self.enc, &self.path, variant, self.precisely)
    }

    /// The candidate locations of check-in `active_id` of course `course`.
    /// A full location string is the one candidate. An address label alone
    /// names the preset's coordinates, the one candidate when there is a
    /// preset and none otherwise. Without a string, the candidates are the
    /// preset, the course's saved locations, then the global ones.
    pub fn locations(&self, course: i64, active_id: i64, presets: &Vec<Preset>, saved: &Vec<SavedLocation>) -> (r: Vec<Location>)
        ensures
            match self.location_str {
                Some(s) => match location_text(s@) {
                    Some(f) => r.len() == 1 && crate::location::fields_of(r[0]) == f,
                    None => if s@.len() == 0 {
                        r@ == candidates(course, active_id, None, None, presets@, saved@, !self.no_rand_shift)
                    } else {
                        match preset_for(presets@, active_id, !self.no_rand_shift) {
                            Some(p) => r.len() == 1 && crate::location::fields_of(r[0]) == relabelled(p, s@),
                            None => r.len() == 0,
                        }
                    },
                },
                None => r@ == candidates(course, active_id, None, None, presets@, saved@, !self.no_rand_shift),
            },
    {
        let jitter = !self.no_rand_shift;
        match &self.location_str {
            Some(s) => {
                match parse_location(s.as_str()) {
                    Some(l) => {
                        let mut out: Vec<Location> = Vec::new();
                        out.push(l);
                        out
                    },
                    None => {
                        if s.as_str().is_empty() {
                            resolve_candidates(course, active_id, &None, None, presets, saved, jitter)
                        } else {
                            let none: Vec<SavedLocation> = Vec::new();
                            let found = resolve_candidates(course, active_id, &None, None, presets, &none, jitter);
                            assert(found@ =~= opt_seq(preset_for(presets@, active_id, jitter)));
                            let mut out: Vec<Location> = Vec::new();
                            if found.len() > 0 {
                                let p = &found[0];
                                out.push(Location::new(s.as_str(), p.lon.as_str(), p.lat.as_str(), p.alt.as_str()));
                            }
                            out
                        }
                    },
                }
            },
            None => resolve_candidates(course, active_id, &None, None, presets, saved, jitter),
        }
    }
}

} // verus!
