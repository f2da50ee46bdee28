//! Application filtering.
//!
//! ```text
//! WhatsApp -> forwarded
//! Slack    -> ignored      (when only WhatsApp is enabled)
//! ```

use crate::config::{AppConfig, FilterMode};
use crate::tables::NameSet;
use crate::text;
use vstd::prelude::*;
use vstd::string::*;

verus! {

/// The lower-case forms of a set of names.
pub open spec fn lowered(names: Set<Seq<char>>) -> Set<Seq<char>> {
    names.map(|name: Seq<char>| text::lowered(name))
}

/// Runtime filter made from an [`AppConfig`].
#[derive(Debug)]
pub struct AppFilter {
    mode: FilterMode,
    allowed: NameSet,
}

impl AppFilter {
    /// Whether every application is forwarded, or only the allowed ones.
    pub closed spec fn mode(&self) -> FilterMode {
        self.mode
    }

    /// The allowed names in lower case.
    pub closed spec fn allowed(&self) -> Set<Seq<char>> {
        self.allowed@
    }

    /// Whether an application passes, by its name in lower case.
    pub open spec fn passes_lowered(&self, name: Seq<char>) -> bool {
        match self.mode() {
            FilterMode::All => true,
            FilterMode::Selected => self.allowed().contains(name),
        }
    }

    /// Whether an application passes.
    pub open spec fn passes(&self, app_name: Seq<char>) -> bool {
        self.passes_lowered(text::lowered(app_name))
    }

    /// Whether this is the filter that a configuration asks for.
    pub open spec fn matches_config(&self, config: AppConfig) -> bool {
        &&& self.mode() == config.filter_mode
        &&& self.allowed() == lowered(config.allowed_apps@)
    }

    /// The filter that the configuration asks for.
    pub fn from_config(config: &AppConfig) -> (r: AppFilter)
        ensures
            r.matches_config(*config),
    {
        let names = config.allowed_apps.names();
        let ghost all = text::texts(names@);
        let mut allowed = NameSet::new();
        for i in 0..names.len()
            invariant
                all == text::texts(names@),
                forall|x: Seq<char>| #[trigger]
                    allowed@.contains(x) <==> exists|j: int|
                        0 <= j < i && text::lowered(#[trigger] all[j]) == x,
        {
            let ghost before = allowed@;
            allowed.insert(names[i].as_str().to_lowercase());
            assert forall|x: Seq<char>| #[trigger]
                allowed@.contains(x) <==> exists|j: int|
                    0 <= j < i + 1 && text::lowered(#[trigger] all[j]) == x by {
                if x == text::lowered(all[i as int]) {
                    assert(allowed@.contains(x));
                } else if before.contains(x) {
                    let j = choose|j: int| 0 <= j < i && text::lowered(#[trigger] all[j]) == x;
                    assert(text::lowered(all[j]) == x);
                }
            }
        }
        proof {
            let want = lowered(config.allowed_apps@);
            assert forall|x: Seq<char>| allowed@.contains(x) <==> #[trigger] want.contains(x) by {
                if allowed@.contains(x) {
                    let j = choose|j: int|
                        0 <= j < all.len() && text::lowered(#[trigger] all[j]) == x;
                    assert(config.allowed_apps@.contains(all[j]));
                }
                if want.contains(x) {
                    let name = choose|name: Seq<char>|
                        config.allowed_apps@.contains(name) && text::lowered(name) == x;
                    assert(all.contains(name));
                    let j = choose|j: int| 0 <= j < all.len() && all[j] == name;
                    assert(text::lowered(all[j]) == x);
                }
            }
            assert(allowed@ =~= want);
        }
        AppFilter { mode: config.filter_mode, allowed }
    }

    /// The filter that lets everything through.
    pub fn allow_all() -> (r: AppFilter)
        ensures
            r.mode() == FilterMode::All,
            r.allowed() == Set::<Seq<char>>::empty(),
    {
        AppFilter { mode: FilterMode::All, allowed: NameSet::new() }
    }

    /// Whether an application passes, by its name in lower case.
    pub fn allows_lowered(&self, name: &str) -> (r: bool)
        ensures
            r == self.passes_lowered(name@),
    {
        match self.mode {
            FilterMode::All => true,
            FilterMode::Selected => self.allowed.contains(name),
        }
    }

    /// Whether an application passes. Filtering happens before the webhook is
    /// called.
    pub fn allows(&self, app_name: &str) -> (r: bool)
        ensures
            r == self.passes(app_name@),
    {
        let name = app_name.to_lowercase();
        self.allows_lowered(name.as_str())
    }
}

impl Clone for AppFilter {
    fn clone(&self) -> (r: AppFilter)
        ensures
            r.mode() == self.mode(),
            r.allowed() == self.allowed(),
    {
        AppFilter { mode: self.mode, allowed: self.allowed.clone() }
    }
}

/// Names are matched whatever their case: a selected application passes under
/// every name with the same lower-case form as an allowed one, and under no
/// other.
pub proof fn law_matching_ignores_case(filter: AppFilter, config: AppConfig, app_name: Seq<char>)
    requires
        filter.matches_config(config),
        config.filter_mode == FilterMode::Selected,
    ensures
        filter.passes(app_name) <==> exists|name: Seq<char>|
            #![trigger config.allowed_apps@.contains(name)]
            config.allowed_apps@.contains(name) && text::lowered(name) == text::lowered(
                app_name,
            ),
{
    let want = lowered(config.allowed_apps@);
    assert(filter.passes(app_name) == want.contains(text::lowered(app_name)));
}

/// In the mode for all applications everything passes, whatever is allowed.
pub proof fn law_all_mode_forwards_everything(
    filter: AppFilter,
    config: AppConfig,
    app_name: Seq<char>,
)
    requires
        filter.matches_config(config),
        config.filter_mode == FilterMode::All,
    ensures
        filter.passes(app_name),
{
}

} // verus!
