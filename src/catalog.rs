use vstd::prelude::*;
use vstd::string::*;
use crate::paths::{is_under, is_under_spec, join_path, join_spec};

verus! {

/// File name of the persisted catalog inside the configuration directory.
pub const CONFIGS_STATE_FILENAME: &'static str = "configs.json";

/// One known configuration file.
#[derive(Debug, Clone)]
pub struct Config {
    pub id: String,
    pub name: String,
    pub path: String,
}

/// What an entry holds, as text.
pub struct ConfigView {
    pub id: Seq<char>,
    pub name: Seq<char>,
    pub path: Seq<char>,
}

impl View for Config {
    type V = ConfigView;

    open spec fn view(&self) -> ConfigView {
        ConfigView { id: self.id@, name: self.name@, path: self.path@ }
    }
}

/// The catalog: configuration entries in insertion order, and the id of the
/// active one, if any.
#[derive(Debug, Clone)]
pub struct State {
    configs: Vec<Config>,
    active_config_id: Option<String>,
}

/// The entries of `s` whose id differs from `id`, in their order.
pub open spec fn without_id(s: Seq<ConfigView>, id: Seq<char>) -> Seq<ConfigView>
    decreases s.len(),
{
    if s.len() == 0 {
        s
    } else if s.last().id == id {
        without_id(s.drop_last(), id)
    } else {
        without_id(s.drop_last(), id).push(s.last())
    }
}

/// The first entry of `s` whose id is `id`.
pub open spec fn first_with_id(s: Seq<ConfigView>, id: Seq<char>) -> Option<ConfigView>
    decreases s.len(),
{
    if s.len() == 0 {
        None
    } else if s[0].id == id {
        Some(s[0])
    } else {
        first_with_id(s.drop_first(), id)
    }
}

/// The entry that an active pointer designates.
pub open spec fn lookup_active(s: Seq<ConfigView>, active: Option<Seq<char>>) -> Option<ConfigView> {
    match active {
        Some(id) => first_with_id(s, id),
        None => None,
    }
}

/// How many entries of `s` carry `id`.
pub open spec fn count_id(s: Seq<ConfigView>, id: Seq<char>) -> nat
    decreases s.len(),
{
    if s.len() == 0 {
        0
    } else {
        count_id(s.drop_last(), id) + if s.last().id == id {
            1nat
        } else {
            0nat
        }
    }
}

/// Where an entry with `id` and `path` is stored: its own path when that
/// lies under the configuration directory, else `<dir>/<id>.json`.
pub open spec fn stored_path(dir: Seq<char>, id: Seq<char>, path: Seq<char>) -> Seq<char> {
    if is_under_spec(path, dir) {
        path
    } else {
        join_spec(dir, id + seq!['.', 'j', 's', 'o', 'n'])
    }
}

/// `c` as the catalog stores it under `dir`.
pub open spec fn stored_entry(dir: Seq<char>, c: ConfigView) -> ConfigView {
    ConfigView { id: c.id, name: c.name, path: stored_path(dir, c.id, c.path) }
}

fn copy_entry(c: &Config) -> (r: Config)
    ensures
        r == *c,
{
    Config { id: c.id.clone(), name: c.name.clone(), path: c.path.clone() }
}

fn copy_id(id: &Option<String>) -> (r: Option<String>)
    ensures
        r == *id,
{
    match id {
        Some(s) => Some(s.clone()),
        None => None,
    }
}

impl State {
    /// The entries, in order.
    pub closed spec fn entries(&self) -> Seq<ConfigView> {
        self.configs@.map_values(|c: Config| c@)
    }

    /// The active pointer.
    pub closed spec fn active(&self) -> Option<Seq<char>> {
        match self.active_config_id {
            Some(s) => Some(s@),
            None => None,
        }
    }

    /// An empty catalog with no active entry.
    pub fn new() -> (r: State)
        ensures
            r.entries() == Seq::<ConfigView>::empty(),
            r.active() == None::<Seq<char>>,
    {
        State { configs: Vec::new(), active_config_id: None }
    }

    /// The catalog at startup: the persisted one where a document was found
    /// and read, else an empty one.
    pub fn load(persisted: Option<State>) -> (r: State)
        ensures
            persisted matches Some(p) ==> r == p,
            persisted is None ==> r.entries() == Seq::<ConfigView>::empty() && r.active() is None,
    {
        match persisted {
            Some(p) => p,
            None => State::new(),
        }
    }

    /// A catalog from persisted parts, kept as they are.
    pub fn from_parts(configs: Vec<Config>, active_config_id: Option<String>) -> (r: State)
        ensures
            r.entries() == configs@.map_values(|c: Config| c@),
            r.active() == (match active_config_id {
                Some(s) => Some(s@),
                None => None,
            }),
    {
        State { configs, active_config_id }
    }

    /// The active id as stored, to persist it.
    pub fn active_config_id(&self) -> (r: Option<String>)
        ensures
            r matches Some(s) ==> self.active() == Some(s@),
            r is None ==> self.active() is None,
    {
        copy_id(&self.active_config_id)
    }

    /// Appends `config`, with its path placed under `config_dir` unless the
    /// path already lies under that directory.
    pub fn add_config(&mut self, config: Config, config_dir: &str)
        ensures
            final(self).entries() == old(self).entries().push(stored_entry(config_dir@, config@)),
            final(self).active() == old(self).active(),
    {
        let mut config = config;
        let ghost given = config@;
        if !is_under(config.path.as_str(), config_dir) {
            let mut file = config.id.clone();
            proof {
                reveal_strlit(".json");
            }
            file.append(".json");
            assert(file@ =~= given.id + seq!['.', 'j', 's', 'o', 'n']);
            let p = join_path(config_dir, file.as_str());
            config.path = p;
        }
        assert(config@ == stored_entry(config_dir@, given));
        let ghost added = config@;
        self.configs.push(config);
        assert(self.entries() =~= old(self).entries().push(added));
    }

    /// Removes every entry whose id is `id`; clears the active pointer when it
    /// designated `id`.
    pub fn remove_config(&mut self, id: &str)
        ensures
            final(self).entries() == without_id(old(self).entries(), id@),
            final(self).active() == (if old(self).active() == Some(id@) {
                None
            } else {
                old(self).active()
            }),
    {
        let target = String::from_str(id);
        let mut kept: Vec<Config> = Vec::new();
        let n = self.configs.len();
        let mut i: usize = 0;
        while i < n
            invariant
                n == self.configs.len(),
                i <= n,
                target@ == id@,
                *self == *old(self),
                kept@.map_values(|c: Config| c@) == without_id(
                    self.entries().subrange(0, i as int),
                    id@,
                ),
            decreases n - i,
        {
            let c = &self.configs[i];
            proof {
                let t = self.entries().subrange(0, i + 1);
                assert(t.drop_last() =~= self.entries().subrange(0, i as int));
                assert(t.last() == c@);
            }
            if !(c.id == target) {
                let ghost before = kept@;
                kept.push(copy_entry(c));
                assert(kept@.map_values(|c: Config| c@) =~= before.map_values(|c: Config| c@).push(
                    c@,
                ));
            }
            i = i + 1;
        }
        assert(self.entries().subrange(0, n as int) =~= self.entries());
        self.configs = kept;
        let clear = match &self.active_config_id {
            Some(a) => *a == target,
            None => false,
        };
        if clear {
            self.active_config_id = None;
        }
    }

    /// Points the catalog at `id`, or at nothing; the id is not checked
    /// against the entries.
    pub fn set_active_config(&mut self, id: Option<String>)
        ensures
            final(self).entries() == old(self).entries(),
            final(self).active() == (match id {
                Some(s) => Some(s@),
                None => None,
            }),
    {
        self.active_config_id = id;
    }

    /// The first entry whose id is the active pointer, if any.
    pub fn get_active_config(&self) -> (r: Option<&Config>)
        ensures
            r is Some == lookup_active(self.entries(), self.active()) is Some,
            r matches Some(c) ==> lookup_active(self.entries(), self.active()) == Some(c@),
    {
        match &self.active_config_id {
            None => None,
            Some(a) => {
                let n = self.configs.len();
                let mut i: usize = 0;
                assert(self.entries().subrange(0, n as int) =~= self.entries());
                while i < n
                    invariant
                        n == self.configs.len(),
                        i <= n,
                        self.active() == Some(a@),
                        first_with_id(self.entries(), a@) == first_with_id(
                            self.entries().subrange(i as int, n as int),
                            a@,
                        ),
                    decreases n - i,
                {
                    let ghost t = self.entries().subrange(i as int, n as int);
                    assert(t.drop_first() =~= self.entries().subrange(i + 1, n as int));
                    assert(t[0] == self.configs[i as int]@);
                    if self.configs[i].id == *a {
                        return Some(&self.configs[i]);
                    }
                    i = i + 1;
                }
                None
            },
        }
    }

    /// All entries, in order.
    pub fn get_configs(&self) -> (r: &[Config])
        ensures
            r@.map_values(|c: Config| c@) == self.entries(),
    {
        self.configs.as_slice()
    }
}

impl Default for State {
    fn default() -> (r: State)
        ensures
            r.entries() == Seq::<ConfigView>::empty(),
            r.active() is None,
    {
        State::new()
    }
}

proof fn lemma_first_with_absent(s: Seq<ConfigView>, id: Seq<char>)
    requires
        count_id(s, id) == 0,
    ensures
        first_with_id(s, id) is None,
    decreases s.len(),
{
    if s.len() > 0 {
        lemma_count_zero_all(s, id);
        assert(s[0].id != id);
        assert forall|k: int| 0 <= k < s.drop_first().len() implies #[trigger] s.drop_first()[k].id
            != id by {
            assert(s.drop_first()[k] == s[k + 1]);
        }
        lemma_count_none_zero(s.drop_first(), id);
        lemma_first_with_absent(s.drop_first(), id);
    }
}

proof fn lemma_count_zero_all(s: Seq<ConfigView>, id: Seq<char>)
    requires
        count_id(s, id) == 0,
    ensures
        forall|k: int| 0 <= k < s.len() ==> #[trigger] s[k].id != id,
    decreases s.len(),
{
    if s.len() > 0 {
        lemma_count_zero_all(s.drop_last(), id);
        assert forall|k: int| 0 <= k < s.len() implies #[trigger] s[k].id != id by {
            if k < s.len() - 1 {
                assert(s[k] == s.drop_last()[k]);
            }
        }
    }
}

proof fn lemma_count_none_zero(s: Seq<ConfigView>, id: Seq<char>)
    requires
        forall|k: int| 0 <= k < s.len() ==> #[trigger] s[k].id != id,
    ensures
        count_id(s, id) == 0,
    decreases s.len(),
{
    if s.len() > 0 {
        assert forall|k: int| 0 <= k < s.drop_last().len() implies #[trigger] s.drop_last()[k].id
            != id by {
            assert(s.drop_last()[k] == s[k]);
        }
        lemma_count_none_zero(s.drop_last(), id);
    }
}

/// No entry that `without_id` keeps carries the removed id.
pub proof fn lemma_removed_id_absent(s: Seq<ConfigView>, id: Seq<char>)
    ensures
        count_id(without_id(s, id), id) == 0,
        forall|k: int|
            0 <= k < without_id(s, id).len() ==> #[trigger] without_id(s, id)[k].id != id,
    decreases s.len(),
{
    if s.len() > 0 {
        lemma_removed_id_absent(s.drop_last(), id);
        let w = without_id(s.drop_last(), id);
        if s.last().id != id {
            assert(without_id(s, id).drop_last() =~= w);
        }
    }
    lemma_count_zero_all(without_id(s, id), id);
}

/// Adding an entry whose id the catalog does not hold yet, then listing the
/// entries, shows that entry exactly once, stored under the configuration
/// directory's rule; removing an id, then listing, shows no entry with it.
pub proof fn lemma_add_then_list(s: Seq<ConfigView>, dir: Seq<char>, c: ConfigView)
    requires
        count_id(s, c.id) == 0,
    ensures
        count_id(s.push(stored_entry(dir, c)), c.id) == 1,
        s.push(stored_entry(dir, c)).last() == stored_entry(dir, c),
        count_id(without_id(s.push(stored_entry(dir, c)), c.id), c.id) == 0,
{
    let t = s.push(stored_entry(dir, c));
    assert(t.drop_last() =~= s);
    lemma_removed_id_absent(t, c.id);
}

/// Once `id` is active, removing `id` leaves no active entry: the pointer is
/// cleared, and no remaining entry could match it either.
pub proof fn lemma_remove_active_clears(s: Seq<ConfigView>, id: Seq<char>)
    ensures
        lookup_active(without_id(s, id), None) is None,
        first_with_id(without_id(s, id), id) is None,
{
    lemma_removed_id_absent(s, id);
    lemma_first_with_absent(without_id(s, id), id);
}

/// Activating an id that no entry carries is accepted, and then there is no
/// active entry.
pub proof fn lemma_unknown_active_finds_nothing(s: Seq<ConfigView>, id: Seq<char>)
    requires
        forall|k: int| 0 <= k < s.len() ==> #[trigger] s[k].id != id,
    ensures
        lookup_active(s, Some(id)) is None,
{
    lemma_count_none_zero(s, id);
    lemma_first_with_absent(s, id);
}

proof fn lemma_first_with_appended(s: Seq<ConfigView>, x: ConfigView)
    requires
        forall|k: int| 0 <= k < s.len() ==> #[trigger] s[k].id != x.id,
    ensures
        first_with_id(s.push(x), x.id) == Some(x),
    decreases s.len(),
{
    if s.len() == 0 {
        assert(s.push(x)[0] == x);
    } else {
        let t = s.push(x);
        assert(t[0] == s[0]);
        assert(t.drop_first() =~= s.drop_first().push(x));
        assert forall|k: int| 0 <= k < s.drop_first().len() implies #[trigger] s.drop_first()[k].id
            != x.id by {
            assert(s.drop_first()[k] == s[k + 1]);
        }
        lemma_first_with_appended(s.drop_first(), x);
    }
}

/// Adding an entry whose id the catalog does not hold yet and activating
/// that id makes the stored entry the active one; removing the id again
/// leaves no active entry.
pub proof fn lemma_add_activate_remove(s: Seq<ConfigView>, dir: Seq<char>, c: ConfigView)
    requires
        count_id(s, c.id) == 0,
    ensures
        lookup_active(s.push(stored_entry(dir, c)), Some(c.id)) == Some(stored_entry(dir, c)),
        lookup_active(without_id(s.push(stored_entry(dir, c)), c.id), None) is None,
{
    lemma_count_zero_all(s, c.id);
    lemma_first_with_appended(s, stored_entry(dir, c));
    lemma_remove_active_clears(s.push(stored_entry(dir, c)), c.id);
}

} // verus!
