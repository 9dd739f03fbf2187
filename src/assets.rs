//! Icon names and the asset-path rules of the viewer.

use vstd::prelude::*;

use crate::text::{chars_of, matches_at, starts_with};

verus! {

/// Icons that the viewer ships itself.
#[derive(Debug, Clone, Copy, PartialEq, Eq, Structural)]
pub enum AppIconName {
    Pencil,
    Presentation,
}

/// The pencil icon, shown beside the edit switch.
pub const PENCIL_ICON_PATH: &'static str = "icons/pencil.svg";

/// The icon of the button that starts a presentation.
pub const PRESENTATION_ICON_PATH: &'static str = "icons/presentation.svg";

/// Where the icon's image lies among the assets.
pub open spec fn icon_path(icon: AppIconName) -> Seq<char> {
    match icon {
        AppIconName::Pencil => PENCIL_ICON_PATH@,
        AppIconName::Presentation => PRESENTATION_ICON_PATH@,
    }
}

impl AppIconName {
    /// The asset path of the icon's SVG image.
    pub fn path(self) -> (r: &'static str)
        ensures
            r@ == icon_path(self),
    {
        match self {
            AppIconName::Pencil => PENCIL_ICON_PATH,
            AppIconName::Presentation => PRESENTATION_ICON_PATH,
        }
    }
}

/// The viewer's asset source: its own embedded files first, then those of the
/// component library.
pub struct Assets;

/// The paths of `ps` that start with `prefix`, in their order.
pub open spec fn with_prefix(ps: Seq<Seq<char>>, prefix: Seq<char>) -> Seq<Seq<char>>
    decreases ps.len(),
{
    if ps.len() == 0 {
        Seq::empty()
    } else {
        let rest = with_prefix(ps.drop_last(), prefix);
        if starts_with(ps.last(), prefix) {
            rest.push(ps.last())
        } else {
            rest
        }
    }
}

impl Assets {
    /// The paths among `paths` that lie under `prefix`, as a listing of the embedded
    /// files returns them.
    pub fn matching_paths(paths: &Vec<String>, prefix: &str) -> (r: Vec<String>)
        ensures
            r.deep_view() == with_prefix(paths.deep_view(), prefix@),
    {
        let p = chars_of(prefix);
        let mut out: Vec<String> = Vec::new();
        let mut i: usize = 0;
        while i < paths.len()
            invariant
                i <= paths.len(),
                p@ == prefix@,
                out.deep_view() == with_prefix(paths.deep_view().subrange(0, i as int), prefix@),
            decreases paths.len() - i,
        {
            let ghost ps = paths.deep_view().subrange(0, i + 1);
            assert(ps.drop_last() =~= paths.deep_view().subrange(0, i as int));
            assert(ps.last() == paths[i as int]@);
            let c = chars_of(paths[i].as_str());
            if matches_at(&c, &p, 0) {
                let s = paths[i].clone();
                out.push(s);
                assert(out.deep_view() =~= with_prefix(ps, prefix@));
            }
            i = i + 1;
        }
        assert(paths.deep_view().subrange(0, i as int) =~= paths.deep_view());
        out
    }
}

} // verus!
