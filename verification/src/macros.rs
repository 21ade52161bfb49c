//! Named command macros and the two file layouts they are stored in.
//!
//! The file itself is read, parsed and written by the caller; here are the macros, the
//! conversions between a macro and its stored form, and the choice between the layouts.
use vstd::prelude::*;

use crate::keyed::KeyedList;

verus! {

/// A single command within a macro.
#[derive(Debug)]
pub struct MacroCommand {
    /// The text to send.
    pub text: String,
    /// Delay in milliseconds before sending this command.
    pub delay_ms: u64,
}

impl View for MacroCommand {
    type V = (Seq<char>, u64);

    open spec fn view(&self) -> (Seq<char>, u64) {
        (self.text@, self.delay_ms)
    }
}

impl Clone for MacroCommand {
    fn clone(&self) -> (c: Self)
        ensures
            c == *self,
    {
        MacroCommand { text: self.text.clone(), delay_ms: self.delay_ms }
    }
}

/// A macro is a named sequence of commands to send.
#[derive(Debug)]
pub struct Macro {
    pub name: String,
    pub description: String,
    pub commands: Vec<MacroCommand>,
}

/// Abstract value of a macro.
pub ghost struct MacroView {
    pub name: Seq<char>,
    pub description: Seq<char>,
    /// Text and delay of each command, in order.
    pub commands: Seq<(Seq<char>, u64)>,
}

impl View for Macro {
    type V = MacroView;

    open spec fn view(&self) -> MacroView {
        MacroView {
            name: self.name@,
            description: self.description@,
            commands: self.commands@.map_values(|c: MacroCommand| c@),
        }
    }
}

impl Clone for Macro {
    fn clone(&self) -> (c: Self)
        ensures
            c@ == self@,
    {
        let mut commands: Vec<MacroCommand> = Vec::new();
        for i in 0..self.commands.len()
            invariant
                commands@.len() == i,
                forall|j: int| 0 <= j < i ==> #[trigger] commands@[j]@ == self.commands@[j]@,
        {
            let c = self.commands[i].clone();
            commands.push(c);
        }
        assert(commands@.map_values(|c: MacroCommand| c@) =~= self.commands@.map_values(
            |c: MacroCommand| c@,
        ));
        Macro { name: self.name.clone(), description: self.description.clone(), commands }
    }
}

/// A macro as the canonical file layout stores it: the command texts, and one delay that
/// every command but the first waits.
#[derive(Debug)]
pub struct CanonicalMacroFile {
    pub name: String,
    pub description: String,
    pub commands: Vec<String>,
    pub delay_ms: Option<u64>,
}

/// Abstract value of a canonical macro entry.
pub ghost struct CanonicalView {
    pub name: Seq<char>,
    pub description: Seq<char>,
    pub commands: Seq<Seq<char>>,
    pub delay_ms: Option<u64>,
}

impl View for CanonicalMacroFile {
    type V = CanonicalView;

    open spec fn view(&self) -> CanonicalView {
        CanonicalView {
            name: self.name@,
            description: self.description@,
            commands: self.commands@.map_values(|s: String| s@),
            delay_ms: self.delay_ms,
        }
    }
}

/// One command of a macro in the older, per-command layout.
#[derive(Debug)]
pub struct LegacyMacroCommandFile {
    pub text: String,
    pub delay_ms: Option<u64>,
}

/// A macro in the older layout, where the macro's name is the table's key.
#[derive(Debug)]
pub struct LegacyMacroFile {
    pub description: String,
    pub commands: Vec<LegacyMacroCommandFile>,
}

/// The delay every command after the first shares, provided the first has none: `None` for
/// fewer than two commands, a first command with a delay, or differing later delays.
pub open spec fn shared_delay(commands: Seq<(Seq<char>, u64)>) -> Option<u64> {
    if commands.len() < 2 {
        None
    } else if commands[0].1 != 0 {
        None
    } else if forall|i: int| 1 <= i < commands.len() ==> #[trigger] commands[i].1 == commands[1].1 {
        Some(commands[1].1)
    } else {
        None
    }
}

/// The canonical entry a macro is saved as.
pub open spec fn canonical_of(m: MacroView) -> CanonicalView {
    CanonicalView {
        name: m.name,
        description: m.description,
        commands: m.commands.map_values(|c: (Seq<char>, u64)| c.0),
        delay_ms: shared_delay(m.commands),
    }
}

/// The delay of command `index` read from a canonical entry: none for the first, the stored
/// delay (or none) for the others.
pub open spec fn canonical_delay(index: int, delay_ms: Option<u64>) -> u64 {
    if index == 0 {
        0
    } else {
        match delay_ms {
            Some(d) => d,
            None => 0,
        }
    }
}

/// The macro a canonical entry stands for.
pub open spec fn macro_of(c: CanonicalView) -> MacroView {
    MacroView {
        name: c.name,
        description: c.description,
        commands: Seq::new(c.commands.len(), |i: int| (c.commands[i], canonical_delay(i, c.delay_ms))),
    }
}

/// The macro a legacy entry stored under `name` stands for; a missing delay is none.
pub open spec fn macro_of_legacy(name: Seq<char>, l: LegacyMacroFile) -> MacroView {
    MacroView {
        name: name,
        description: l.description@,
        commands: l.commands@.map_values(
            |c: LegacyMacroCommandFile|
                (
                    c.text@,
                    match c.delay_ms {
                        Some(d) => d,
                        None => 0u64,
                    },
                ),
        ),
    }
}

/// Macros keyed by name from canonical entries; a later entry with the same name wins.
pub open spec fn canonical_map(entries: Seq<CanonicalView>) -> Map<Seq<char>, MacroView>
    decreases entries.len(),
{
    if entries.len() == 0 {
        Map::empty()
    } else {
        canonical_map(entries.drop_last()).insert(entries.last().name, macro_of(entries.last()))
    }
}

/// Macros keyed by name from legacy entries; a later entry with the same name wins.
pub open spec fn legacy_map(entries: Seq<(Seq<char>, LegacyMacroFile)>) -> Map<Seq<char>, MacroView>
    decreases entries.len(),
{
    if entries.len() == 0 {
        Map::empty()
    } else {
        legacy_map(entries.drop_last()).insert(
            entries.last().0,
            macro_of_legacy(entries.last().0, entries.last().1),
        )
    }
}

/// The macros of a keyed list, by view.
pub open spec fn macro_views(m: Map<Seq<char>, Macro>) -> Map<Seq<char>, MacroView> {
    m.map_values(|v: Macro| v@)
}

/// The delay the canonical layout stores for these commands (see [`shared_delay`]).
pub fn macro_delay_ms(commands: &[MacroCommand]) -> (d: Option<u64>)
    ensures
        d == shared_delay(commands@.map_values(|c: MacroCommand| c@)),
{
    let ghost cs = commands@.map_values(|c: MacroCommand| c@);
    if commands.len() < 2 {
        return None;
    }
    if commands[0].delay_ms != 0 {
        return None;
    }
    let first_delay = commands[1].delay_ms;
    let mut i: usize = 2;
    while i < commands.len()
        invariant
            cs == commands@.map_values(|c: MacroCommand| c@),
            2 <= i <= commands@.len(),
            first_delay == cs[1].1,
            forall|j: int| 1 <= j < i ==> #[trigger] cs[j].1 == first_delay,
        decreases commands.len() - i,
    {
        if commands[i].delay_ms != first_delay {
            assert(cs[i as int].1 != cs[1].1);
            return None;
        }
        i = i + 1;
    }
    Some(first_delay)
}

impl CanonicalMacroFile {
    /// The macro this entry stands for.
    pub fn into_macro(self) -> (m: Macro)
        ensures
            m@ == macro_of(self@),
    {
        let delay_ms = match self.delay_ms {
            Some(d) => d,
            None => 0,
        };
        let mut commands: Vec<MacroCommand> = Vec::new();
        let n = self.commands.len();
        for index in 0..n
            invariant
                n == self.commands@.len(),
                delay_ms == canonical_delay(1, self.delay_ms),
                commands@.len() == index,
                forall|j: int| 0 <= j < index ==> #[trigger] commands@[j]@ == (
                    self.commands@[j]@,
                    canonical_delay(j, self.delay_ms),
                ),
        {
            let d = if index == 0 {
                0
            } else {
                delay_ms
            };
            commands.push(MacroCommand { text: self.commands[index].clone(), delay_ms: d });
        }
        let m = Macro { name: self.name, description: self.description, commands };
        assert(m@.commands =~= macro_of(self@).commands);
        m
    }

    /// The entry a macro is saved as.
    pub fn from_macro(m: Macro) -> (c: Self)
        ensures
            c@ == canonical_of(m@),
    {
        let delay_ms = macro_delay_ms(m.commands.as_slice());
        let mut commands: Vec<String> = Vec::new();
        for i in 0..m.commands.len()
            invariant
                commands@.len() == i,
                forall|j: int| 0 <= j < i ==> #[trigger] commands@[j]@ == m.commands@[j].text@,
        {
            commands.push(m.commands[i].text.clone());
        }
        let c = CanonicalMacroFile { name: m.name, description: m.description, commands, delay_ms };
        assert(c@.commands =~= canonical_of(m@).commands);
        c
    }
}

impl LegacyMacroFile {
    /// The macro this entry, stored under `name`, stands for.
    pub fn into_macro(&self, name: &str) -> (m: Macro)
        ensures
            m@ == macro_of_legacy(name@, *self),
    {
        let mut commands: Vec<MacroCommand> = Vec::new();
        for i in 0..self.commands.len()
            invariant
                commands@.len() == i,
                forall|j: int| 0 <= j < i ==> #[trigger] commands@[j]@ == (
                    self.commands@[j].text@,
                    match self.commands@[j].delay_ms {
                        Some(d) => d,
                        None => 0u64,
                    },
                ),
        {
            let c = &self.commands[i];
            let d = match c.delay_ms {
                Some(d) => d,
                None => 0,
            };
            commands.push(MacroCommand { text: c.text.clone(), delay_ms: d });
        }
        let m = Macro {
            name: String::from_str(name),
            description: self.description.clone(),
            commands,
        };
        assert(m@.commands =~= macro_of_legacy(name@, *self).commands);
        m
    }
}

/// The entries of a keyed list of macros are stored under their own names.
pub open spec fn named_by_key(m: Map<Seq<char>, Macro>) -> bool {
    forall|k: Seq<char>| #[trigger] m.dom().contains(k) ==> m[k].name@ == k
}

/// The macros a macro file holds, given what the file parsed as in each layout: the canonical
/// layout when it parsed and holds at least one macro, else the legacy layout when it parsed,
/// else nothing.
pub fn macros_from_documents(
    canonical: Option<Vec<CanonicalMacroFile>>,
    legacy: Option<Vec<(String, LegacyMacroFile)>>,
) -> (r: Option<KeyedList<Macro>>)
    ensures
        match r {
            Some(list) => {
                &&& list.wf()
                &&& named_by_key(list.as_map())
                &&& match canonical {
                    Some(docs) if docs@.len() > 0 => macro_views(list.as_map()) == canonical_map(
                        docs@.map_values(|c: CanonicalMacroFile| c@),
                    ),
                    _ => legacy matches Some(entries) && macro_views(list.as_map()) == legacy_map(
                        entries@.map_values(|e: (String, LegacyMacroFile)| (e.0@, e.1)),
                    ),
                }
            },
            None => !(canonical matches Some(docs) && docs@.len() > 0) && legacy is None,
        },
{
    if let Some(docs) = canonical {
        if docs.len() > 0 {
            return Some(canonical_list(docs));
        }
    }
    match legacy {
        Some(entries) => Some(legacy_list(entries)),
        None => None,
    }
}

fn canonical_list(docs: Vec<CanonicalMacroFile>) -> (list: KeyedList<Macro>)
    ensures
        list.wf(),
        named_by_key(list.as_map()),
        macro_views(list.as_map()) == canonical_map(docs@.map_values(|c: CanonicalMacroFile| c@)),
{
    let ghost views = docs@.map_values(|c: CanonicalMacroFile| c@);
    let mut list: KeyedList<Macro> = KeyedList::new();
    let mut docs = docs;
    let n = docs.len();
    assert(list.as_map() =~= Map::<Seq<char>, Macro>::empty());
    assert(macro_views(list.as_map()) =~= Map::<Seq<char>, MacroView>::empty());
    while docs.len() > 0
        invariant
            n == views.len(),
            docs@.len() <= n,
            forall|j: int| 0 <= j < docs@.len() ==> #[trigger] docs@[j]@ == views[n - docs@.len() + j],
            list.wf(),
            named_by_key(list.as_map()),
            macro_views(list.as_map()) == canonical_map(views.take(n - docs@.len())),
        decreases docs.len(),
    {
        let ghost k = n - docs@.len();
        let doc = docs.remove(0);
        assert(doc@ == views[k]);
        let name = doc.name.clone();
        let m = doc.into_macro();
        let ghost before = list.as_map();
        list.insert(name, m);
        proof {
            assert(views.take(k + 1).drop_last() =~= views.take(k));
            assert(macro_views(list.as_map()) =~= macro_views(before).insert(views[k].name, macro_of(views[k])));
        }
    }
    assert(views.take(n as int) =~= views);
    list
}

fn legacy_list(entries: Vec<(String, LegacyMacroFile)>) -> (list: KeyedList<Macro>)
    ensures
        list.wf(),
        named_by_key(list.as_map()),
        macro_views(list.as_map()) == legacy_map(
            entries@.map_values(|e: (String, LegacyMacroFile)| (e.0@, e.1)),
        ),
{
    let ghost views = entries@.map_values(|e: (String, LegacyMacroFile)| (e.0@, e.1));
    let mut list: KeyedList<Macro> = KeyedList::new();
    assert(macro_views(list.as_map()) =~= Map::<Seq<char>, MacroView>::empty());
    for i in 0..entries.len()
        invariant
            views == entries@.map_values(|e: (String, LegacyMacroFile)| (e.0@, e.1)),
            list.wf(),
            named_by_key(list.as_map()),
            macro_views(list.as_map()) == legacy_map(views.take(i as int)),
    {
        let m = entries[i].1.into_macro(entries[i].0.as_str());
        let ghost before = list.as_map();
        list.insert(entries[i].0.clone(), m);
        proof {
            assert(views.take(i + 1).drop_last() =~= views.take(i as int));
            assert(macro_views(list.as_map()) =~= macro_views(before).insert(
                views[i as int].0,
                macro_of_legacy(views[i as int].0, views[i as int].1),
            ));
        }
    }
    assert(views.take(entries.len() as int) =~= views);
    list
}

/// Saving a macro whose first command waits for nothing and whose later commands all wait
/// the same time, and reading the entry back, gives the same macro.
pub proof fn law_canonical_round_trip(m: MacroView)
    requires
        m.commands.len() > 0 ==> m.commands[0].1 == 0,
        forall|i: int| 1 <= i < m.commands.len() ==> #[trigger] m.commands[i].1 == m.commands[1].1,
    ensures
        macro_of(canonical_of(m)) == m,
{
    let back = macro_of(canonical_of(m));
    assert forall|i: int| 0 <= i < m.commands.len() implies #[trigger] back.commands[i] == m.commands[i] by {
        if m.commands.len() >= 2 {
            assert(m.commands[0].1 == 0);
        }
    }
    assert(back.commands =~= m.commands);
}

/// The set of macros, stored by name, and the file they are kept in.
pub struct MacroManager {
    macros: KeyedList<Macro>,
    file_path: Option<String>,
}

impl MacroManager {
    /// The list is well formed and each macro is stored under its own name.
    pub closed spec fn wf(&self) -> bool {
        self.macros.wf() && named_by_key(self.macros.as_map())
    }

    /// The macros by name.
    pub closed spec fn macro_map(&self) -> Map<Seq<char>, Macro> {
        self.macros.as_map()
    }

    /// The names of the macros, in order.
    pub closed spec fn names(&self) -> Seq<Seq<char>> {
        self.macros.key_seq()
    }

    /// The path of the macro file, if any.
    pub closed spec fn path(&self) -> Option<Seq<char>> {
        match self.file_path {
            Some(p) => Some(p@),
            None => None,
        }
    }

    /// A manager with no macros that keeps them in `file_path`.
    pub fn with_path(file_path: Option<String>) -> (m: Self)
        ensures
            m.wf(),
            m.macro_map() == Map::<Seq<char>, Macro>::empty(),
            m.path() == match file_path {
                Some(p) => Some(p@),
                None => None::<Seq<char>>,
            },
    {
        let m = MacroManager { macros: KeyedList::new(), file_path };
        assert(m.macro_map() =~= Map::<Seq<char>, Macro>::empty());
        m
    }

    /// A manager with no macros and no file.
    pub fn new_in_memory() -> (m: Self)
        ensures
            m.wf(),
            m.macro_map() == Map::<Seq<char>, Macro>::empty(),
            m.path() is None,
    {
        Self::with_path(None)
    }

    /// The path of the macro file.
    pub fn file_path(&self) -> (p: Option<&String>)
        ensures
            match p {
                Some(s) => self.path() == Some(s@),
                None => self.path() is None,
            },
    {
        self.file_path.as_ref()
    }

    /// All macros, sorted by name.
    pub fn list(&self) -> (v: Vec<&Macro>)
        requires
            self.wf(),
        ensures
            forall|i: int| 0 <= i < v@.len() ==> self.macro_map().dom().contains(#[trigger] v@[i].name@)
                && self.macro_map()[v@[i].name@] == *v@[i],
            forall|k: Seq<char>| #[trigger] self.macro_map().dom().contains(k) ==> exists|i: int|
                0 <= i < v@.len() && v@[i].name@ == k,
            forall|i: int, j: int| 0 <= i < j < v@.len() ==> crate::keyed::seq_lt(
                #[trigger] v@[i].name@,
                #[trigger] v@[j].name@,
            ),
    {
        let values = self.macros.values();
        let keys = self.macros.keys();
        proof {
            self.macros.lemma_entries();
        }
        let mut v: Vec<&Macro> = Vec::new();
        for i in 0..values.len()
            invariant
                values@ == self.macros.value_seq(),
                self.wf(),
                self.macros.key_seq().len() == values@.len(),
                v@.len() == i,
                forall|j: int| 0 <= j < i ==> *#[trigger] v@[j] == values@[j],
        {
            v.push(&values[i]);
        }
        proof {
            self.macros.lemma_entries();
            assert forall|i: int| 0 <= i < v@.len() implies self.macro_map().dom().contains(#[trigger] v@[i].name@)
                && self.macro_map()[v@[i].name@] == *v@[i] by {
                assert(self.macro_map()[self.macros.key_seq()[i]] == values@[i]);
            }
            assert forall|k: Seq<char>| #[trigger] self.macro_map().dom().contains(k) implies exists|i: int|
                0 <= i < v@.len() && v@[i].name@ == k by {
                let i = self.macros.key_seq().index_of(k);
                assert(self.macro_map()[self.macros.key_seq()[i]] == values@[i]);
                assert(v@[i].name@ == k);
            }
            assert forall|i: int, j: int| 0 <= i < j < v@.len() implies crate::keyed::seq_lt(
                #[trigger] v@[i].name@,
                #[trigger] v@[j].name@,
            ) by {
                self.macros.lemma_wf_lengths();
                assert(self.macro_map()[self.macros.key_seq()[i]] == values@[i]);
                assert(self.macro_map()[self.macros.key_seq()[j]] == values@[j]);
                assert(crate::keyed::seq_lt(self.macros.key_seq()[i], self.macros.key_seq()[j]));
            }
        }
        v
    }

    /// The macro called `name`.
    pub fn get(&self, name: &str) -> (r: Option<&Macro>)
        requires
            self.wf(),
        ensures
            match r {
                Some(m) => self.macro_map().dom().contains(name@) && *m == self.macro_map()[name@],
                None => !self.macro_map().dom().contains(name@),
            },
    {
        self.macros.get(name)
    }

    /// Adds a macro, or replaces the one with the same name.
    pub fn save_macro(&mut self, m: Macro)
        requires
            old(self).wf(),
        ensures
            final(self).wf(),
            final(self).macro_map() == old(self).macro_map().insert(m.name@, m),
            final(self).path() == old(self).path(),
    {
        let name = m.name.clone();
        let ghost mm = m;
        self.macros.insert(name, m);
        assert(named_by_key(self.macros.as_map()));
    }

    /// Removes the macro called `name`, if there is one.
    pub fn remove(&mut self, name: &str)
        requires
            old(self).wf(),
        ensures
            final(self).wf(),
            final(self).macro_map() == old(self).macro_map().remove(name@),
            final(self).path() == old(self).path(),
    {
        self.macros.remove(name);
        assert(named_by_key(self.macros.as_map()));
    }

    /// Adds the two example macros `reset` and `version`, each sending its own name.
    pub fn create_defaults(&mut self)
        requires
            old(self).wf(),
        ensures
            final(self).wf(),
            final(self).path() == old(self).path(),
            final(self).macro_map().dom() == old(self).macro_map().dom().insert("reset"@).insert(
                "version"@,
            ),
            final(self).macro_map()["reset"@]@ == default_macro("reset"@, "Send reset command"@),
            final(self).macro_map()["version"@]@ == default_macro(
                "version"@,
                "Query firmware version"@,
            ),
            forall|k: Seq<char>|
                #![trigger final(self).macro_map()[k]]
                k != "reset"@ && k != "version"@ && old(self).macro_map().dom().contains(k)
                    ==> final(self).macro_map()[k] == old(self).macro_map()[k],
    {
        let mut reset_commands: Vec<MacroCommand> = Vec::new();
        reset_commands.push(MacroCommand { text: String::from_str("reset"), delay_ms: 0 });
        let reset = Macro {
            name: String::from_str("reset"),
            description: String::from_str("Send reset command"),
            commands: reset_commands,
        };
        assert(reset@.commands =~= seq![("reset"@, 0u64)]);
        self.save_macro(reset);
        let mut version_commands: Vec<MacroCommand> = Vec::new();
        version_commands.push(MacroCommand { text: String::from_str("version"), delay_ms: 0 });
        let version = Macro {
            name: String::from_str("version"),
            description: String::from_str("Query firmware version"),
            commands: version_commands,
        };
        assert(version@.commands =~= seq![("version"@, 0u64)]);
        self.save_macro(version);
        proof {
            reveal_strlit("reset");
            reveal_strlit("version");
            assert("reset"@.len() != "version"@.len());
        }
    }

    /// Reloads the macros from what reading the macro file gave: with no file path, nothing
    /// changes; when the file does not exist (`None`), the example macros are added; when it
    /// exists, the macros it parsed as replace the current ones, and a file that could not be
    /// read or parsed changes nothing.
    pub fn reload(&mut self, file: Option<Option<KeyedList<Macro>>>)
        requires
            old(self).wf(),
            file matches Some(Some(list)) ==> list.wf() && named_by_key(list.as_map()),
        ensures
            final(self).wf(),
            final(self).path() == old(self).path(),
            old(self).path() is None ==> final(self).macro_map() == old(self).macro_map(),
            old(self).path() is Some ==> match file {
                None => final(self).macro_map().dom() == old(self).macro_map().dom().insert(
                    "reset"@,
                ).insert("version"@),
                Some(None) => final(self).macro_map() == old(self).macro_map(),
                Some(Some(list)) => final(self).macro_map() == list.as_map(),
            },
    {
        if self.file_path.is_none() {
            return;
        }
        match file {
            None => self.create_defaults(),
            Some(None) => {},
            Some(Some(list)) => {
                self.macros = list;
            },
        }
    }

    /// The canonical entries for every macro, in name order, as the file is written.
    pub fn canonical_document(&self) -> (docs: Vec<CanonicalMacroFile>)
        requires
            self.wf(),
        ensures
            docs@.len() == self.names().len(),
            forall|i: int| 0 <= i < docs@.len() ==> #[trigger] docs@[i]@ == canonical_of(
                self.macro_map()[self.names()[i]]@,
            ),
    {
        let values = self.macros.values();
        let mut docs: Vec<CanonicalMacroFile> = Vec::new();
        proof {
            self.macros.lemma_entries();
        }
        for i in 0..values.len()
            invariant
                values@ == self.macros.value_seq(),
                self.macros.wf(),
                self.macros.key_seq().len() == values@.len(),
                forall|j: int| 0 <= j < values@.len() ==> self.macros.as_map()[#[trigger] self.macros.key_seq()[j]] == values@[j],
                docs@.len() == i,
                forall|j: int| 0 <= j < i ==> #[trigger] docs@[j]@ == canonical_of(values@[j]@),
        {
            docs.push(CanonicalMacroFile::from_macro(values[i].clone()));
        }
        docs
    }
}

/// A default example macro: one command, its own name, sent at once.
pub open spec fn default_macro(name: Seq<char>, description: Seq<char>) -> MacroView {
    MacroView { name, description, commands: seq![(name, 0u64)] }
}

} // verus!
