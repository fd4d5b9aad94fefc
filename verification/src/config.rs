//! The configuration snapshot: the four effective settings of one run,
//! resolved once from the supplied values with the documented defaults.

use vstd::prelude::*;
use crate::text::{default_notice, default_notice_vec, default_prefix, default_prefix_vec};

verus! {

/// The settings of one transform run, immutable for its duration.
#[derive(Debug, PartialEq, Eq)]
pub struct Config {
    /// Delete private blocks and private chapters instead of marking them.
    pub remove: bool,
    /// Wrap kept private blocks in a styled container; ignored when `remove`.
    pub style: bool,
    /// Label shown on styled wrappers.
    pub notice: Vec<u8>,
    /// Filename prefix that marks a chapter as private.
    pub prefix: Vec<u8>,
}

/// Ghost mirror of `Config`.
pub ghost struct GConfig {
    pub remove: bool,
    pub style: bool,
    pub notice: Seq<u8>,
    pub prefix: Seq<u8>,
}

impl View for Config {
    type V = GConfig;

    open spec fn view(&self) -> GConfig {
        GConfig {
            remove: self.remove,
            style: self.style,
            notice: self.notice@,
            prefix: self.prefix@,
        }
    }
}

impl Config {
    /// Resolves the snapshot: an absent setting takes its documented default
    /// (no removal, styled wrappers, the fixed confidentiality label, and an
    /// underscore prefix).
    pub fn new(
        remove: Option<bool>,
        style: Option<bool>,
        notice: Option<Vec<u8>>,
        prefix: Option<Vec<u8>>,
    ) -> (c: Config)
        ensures
            c.remove == match remove {
                Option::Some(b) => b,
                Option::None => false,
            },
            c.style == match style {
                Option::Some(b) => b,
                Option::None => true,
            },
            c.notice@ == match notice {
                Option::Some(n) => n@,
                Option::None => default_notice(),
            },
            c.prefix@ == match prefix {
                Option::Some(p) => p@,
                Option::None => default_prefix(),
            },
    {
        Config {
            remove: match remove {
                Option::Some(b) => b,
                Option::None => false,
            },
            style: match style {
                Option::Some(b) => b,
                Option::None => true,
            },
            notice: match notice {
                Option::Some(n) => n,
                Option::None => default_notice_vec(),
            },
            prefix: match prefix {
                Option::Some(p) => p,
                Option::None => default_prefix_vec(),
            },
        }
    }
}

} // verus!
