use vstd::prelude::*;
use crate::alias::{AliasEntry, AliasSpec, display_of, entry_of_add, has_command, join, strs};
use crate::store::{AliasMap, is_listing};

verus! {

/// The settings of one directory: an optional identifier, whether run times
/// are shown, and the aliases.
pub struct Config {
    pub identifier: Option<String>,
    pub enable_timing: Option<bool>,
    pub aliases: AliasMap,
}

impl Config {
    /// The settings of a directory that has none stored: no identifier, no
    /// timing, no alias.
    pub fn new() -> (r: Config)
        ensures
            r.identifier is None,
            r.enable_timing is None,
            r.aliases@ == Map::<Seq<char>, AliasSpec>::empty(),
    {
        Config { identifier: None, enable_timing: None, aliases: AliasMap::new() }
    }

    /// Whether run times are shown; they are not unless enabled.
    pub fn timing_enabled(&self) -> (r: bool)
        ensures
            r == (self.enable_timing == Some(true)),
    {
        match self.enable_timing {
            Some(b) => b,
            None => false,
        }
    }

    /// Stores `alias` for `commands`: as a parallel group when `parallel` is
    /// set, else as one command line of the commands joined by spaces. Returns
    /// the display text of what was stored.
    pub fn add_alias(&mut self, alias: String, parallel: bool, commands: &Vec<String>) -> (r: String)
        requires
            commands@.len() > 0,
        ensures
            final(self).aliases@ == old(self).aliases@.insert(
                alias@,
                entry_of_add(parallel, strs(commands@)),
            ),
            has_command(entry_of_add(parallel, strs(commands@))),
            r@ == display_of(entry_of_add(parallel, strs(commands@))),
            final(self).identifier == old(self).identifier,
            final(self).enable_timing == old(self).enable_timing,
    {
        let entry = AliasEntry::from_add(parallel, commands);
        let shown = entry.display();
        self.aliases.insert(alias, entry);
        shown
    }

    /// Removes `alias`; whether it was there.
    pub fn remove_alias(&mut self, alias: &str) -> (r: bool)
        ensures
            r == old(self).aliases@.contains_key(alias@),
            final(self).aliases@ == old(self).aliases@.remove(alias@),
            final(self).identifier == old(self).identifier,
            final(self).enable_timing == old(self).enable_timing,
    {
        self.aliases.remove(alias)
    }
}

/// Adding an alias without the parallel flag stores its commands as one
/// command line joined by spaces; a listing afterwards shows exactly that line
/// under the alias's name; once the alias is removed again, no row of a
/// listing carries its name.
pub proof fn law_add_list_remove(
    m: Map<Seq<char>, AliasSpec>,
    name: Seq<char>,
    commands: Seq<Seq<char>>,
    shown: Seq<(Seq<char>, Seq<char>)>,
    after: Seq<(Seq<char>, Seq<char>)>,
)
    requires
        is_listing(m.insert(name, entry_of_add(false, commands)), shown),
        is_listing(m.insert(name, entry_of_add(false, commands)).remove(name), after),
    ensures
        entry_of_add(false, commands) == AliasSpec::Single(join(commands, seq![' '])),
        exists|i: int| 0 <= i < shown.len() && shown[i] == (name, join(commands, seq![' '])),
        forall|i: int| 0 <= i < after.len() ==> after[i].0 != name,
{
    let added = m.insert(name, entry_of_add(false, commands));
    assert(added.contains_key(name));
    let i = choose|i: int| 0 <= i < shown.len() && #[trigger] shown[i].0 == name;
    assert(shown[i].1 == display_of(added[name]));
    assert(shown[i] == (name, join(commands, seq![' '])));
    assert forall|j: int| 0 <= j < after.len() implies after[j].0 != name by {
        assert(added.remove(name).contains_key(after[j].0));
    }
}

} // verus!
