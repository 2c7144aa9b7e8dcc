//! The assistant catalogue: named system prompts with gate instructions.
//!
//! The manager validates a loaded catalogue once and then answers lookups;
//! reading the catalogue file and parsing it stay outside the library.

use vstd::prelude::*;
use vstd::string::StringExecFns;
use vstd::multiset::Multiset;
use vstd::seq_lib::lemma_multiset_commutative;
use crate::text::{lex_le, str_eq, str_lex_le};

verus! {

/// One assistant: its identity and the prompts that shape it.
#[derive(Debug, Clone)]
pub struct Assistant {
    pub id: String,
    pub name: String,
    pub description: String,
    pub system_prompt: String,
    pub gate_instructions: String,
    pub output_policy: String,
}

/// Whether an assistant satisfies the catalogue's validation rules.
pub open spec fn ok_assistant(a: Assistant) -> bool {
    a.id@.len() > 0 && a.name@.len() > 0 && a.system_prompt@.len() > 0
}

/// Index of the entry with an id, or `-1`.
pub open spec fn index_of_id(g: Seq<Assistant>, id: Seq<char>) -> int
    decreases g.len(),
{
    if g.len() == 0 {
        -1
    } else if g[0].id@ == id {
        0
    } else {
        let r = index_of_id(g.drop_first(), id);
        if r < 0 {
            -1int
        } else {
            r + 1
        }
    }
}

proof fn lemma_index_of_id(g: Seq<Assistant>, id: Seq<char>, j: int)
    requires
        0 <= j <= g.len(),
        forall|k: int| 0 <= k < j ==> g[k].id@ != id,
        j < g.len() ==> g[j].id@ == id,
    ensures
        j < g.len() ==> index_of_id(g, id) == j,
        j == g.len() ==> index_of_id(g, id) == -1,
    decreases g.len(),
{
    if g.len() > 0 && j != 0 {
        let d = g.drop_first();
        assert(forall|k: int| 0 <= k < j - 1 ==> d[k].id@ != id);
        lemma_index_of_id(d, id, j - 1);
    }
}

proof fn lemma_index_of_id_in_range(g: Seq<Assistant>, id: Seq<char>)
    ensures
        index_of_id(g, id) < g.len(),
        index_of_id(g, id) >= 0 ==> g[index_of_id(g, id)].id@ == id,
        index_of_id(g, id) >= 0 <==> exists|k: int| 0 <= k < g.len() && g[k].id@ == id,
    decreases g.len(),
{
    if g.len() > 0 && g[0].id@ != id {
        lemma_index_of_id_in_range(g.drop_first(), id);
        if index_of_id(g.drop_first(), id) >= 0 {
        } else if exists|k: int| 0 <= k < g.len() && g[k].id@ == id {
            let w = choose|w: int| 0 <= w < g.len() && g[w].id@ == id;
            assert(g.drop_first()[w - 1].id@ == id);
        }
    }
}

/// Insertion into the catalogue: a repeated id replaces its entry in place,
/// a new id goes to the end.
pub open spec fn spec_insert_assistant(g: Seq<Assistant>, a: Assistant) -> Seq<Assistant> {
    let i = index_of_id(g, a.id@);
    if i >= 0 {
        g.update(i, a)
    } else {
        g.push(a)
    }
}

/// The catalogue a list of assistants builds, in order.
pub open spec fn spec_build_catalogue(list: Seq<Assistant>) -> Seq<Assistant>
    decreases list.len(),
{
    if list.len() == 0 {
        Seq::<Assistant>::empty()
    } else {
        spec_insert_assistant(spec_build_catalogue(list.drop_last()), list.last())
    }
}

/// Ids are unique in a catalogue.
pub open spec fn unique_ids(g: Seq<Assistant>) -> bool {
    forall|i: int, j: int| 0 <= i < j < g.len() ==> g[i].id@ != g[j].id@
}

proof fn lemma_insert_keeps_unique(g: Seq<Assistant>, a: Assistant)
    requires
        unique_ids(g),
    ensures
        unique_ids(spec_insert_assistant(g, a)),
{
    lemma_index_of_id_in_range(g, a.id@);
    let i = index_of_id(g, a.id@);
    if i >= 0 {
        assert forall|x: int, y: int|
            0 <= x < y < spec_insert_assistant(g, a).len() implies spec_insert_assistant(
            g,
            a,
        )[x].id@ != spec_insert_assistant(g, a)[y].id@ by {
            assert(g[i].id@ == a.id@);
        }
    } else {
        assert forall|x: int, y: int|
            0 <= x < y < spec_insert_assistant(g, a).len() implies spec_insert_assistant(
            g,
            a,
        )[x].id@ != spec_insert_assistant(g, a)[y].id@ by {
            if y == g.len() {
                assert(!(exists|k: int| 0 <= k < g.len() && g[k].id@ == a.id@));
                assert(g[x].id@ != a.id@);
            }
        }
    }
}

/// Index of the first assistant in a list that breaks a validation rule,
/// or the list's length when all pass.
pub open spec fn first_invalid(list: Seq<Assistant>) -> int
    decreases list.len(),
{
    if list.len() == 0 {
        0
    } else if !ok_assistant(list[0]) {
        0
    } else {
        1 + first_invalid(list.drop_first())
    }
}

proof fn lemma_first_invalid(list: Seq<Assistant>, j: int)
    requires
        0 <= j <= list.len(),
        forall|k: int| 0 <= k < j ==> ok_assistant(#[trigger] list[k]),
        j < list.len() ==> !ok_assistant(list[j]),
    ensures
        first_invalid(list) == j,
    decreases list.len(),
{
    if list.len() > 0 && j != 0 {
        let d = list.drop_first();
        assert(forall|k: int| 0 <= k < j - 1 ==> ok_assistant(#[trigger] d[k]));
        lemma_first_invalid(d, j - 1);
    }
}

/// The catalogue of assistants, keyed by id, with a default.
#[derive(Debug)]
pub struct AssistantManager {
    assistants: Vec<Assistant>,
    default_id: String,
}

impl AssistantManager {
    pub closed spec fn spec_assistants(self) -> Seq<Assistant> {
        self.assistants@
    }

    pub closed spec fn spec_default_id(self) -> Seq<char> {
        self.default_id@
    }

    pub open spec fn wf(self) -> bool {
        unique_ids(self.spec_assistants())
    }

    /// A manager with no assistants and no default.
    pub fn empty() -> (r: AssistantManager)
        ensures
            r.wf(),
            r.spec_assistants() == Seq::<Assistant>::empty(),
            r.spec_default_id() == Seq::<char>::empty(),
    {
        AssistantManager { assistants: Vec::new(), default_id: String::new() }
    }

    /// Validates a loaded catalogue and builds the manager: the list must
    /// be non-empty, every assistant must carry an id, a name and a system
    /// prompt, and the default id must name one of them.  The first broken
    /// rule decides the error.
    pub fn from_parts(assistants: Vec<Assistant>, default_assistant: String) -> (r: Result<
        AssistantManager,
        String,
    >)
        ensures
            r is Ok <==> assistants@.len() > 0 && (forall|k: int|
                0 <= k < assistants@.len() ==> ok_assistant(#[trigger] assistants@[k])) && (
            exists|k: int|
                0 <= k < assistants@.len() && assistants@[k].id@ == default_assistant@),
            r matches Ok(m) ==> {
                &&& m.wf()
                &&& m.spec_assistants() == spec_build_catalogue(assistants@)
                &&& m.spec_default_id() == default_assistant@
            },
            r matches Err(e) ==> {
                if assistants@.len() == 0 {
                    e@ == "No assistants defined in config file"@
                } else if first_invalid(assistants@) < assistants@.len() {
                    let bad = assistants@[first_invalid(assistants@)];
                    if bad.id@.len() == 0 {
                        e@ == "Assistant with empty ID found in config"@
                    } else if bad.name@.len() == 0 {
                        e@ == "Assistant '"@ + bad.id@ + "' has empty name"@
                    } else {
                        e@ == "Assistant '"@ + bad.id@ + "' has empty system_prompt"@
                    }
                } else {
                    e@ == "Default assistant '"@ + default_assistant@
                        + "' not found in assistants list"@
                }
            },
    {
        let n = assistants.len();
        if n == 0 {
            return Err(String::from_str("No assistants defined in config file"));
        }
        let mut catalogue: Vec<Assistant> = Vec::new();
        let mut i: usize = 0;
        while i < n
            invariant
                i <= n,
                n == assistants@.len(),
                forall|k: int| 0 <= k < i ==> ok_assistant(#[trigger] assistants@[k]),
                catalogue@ == spec_build_catalogue(assistants@.subrange(0, i as int)),
                unique_ids(catalogue@),
            decreases n - i,
        {
            proof {
                assert(assistants@.subrange(0, i as int + 1).drop_last() =~= assistants@.subrange(
                    0,
                    i as int,
                ));
            }
            let a = &assistants[i];
            if a.id.as_str().is_empty() {
                proof {
                    lemma_first_invalid(assistants@, i as int);
                }
                return Err(String::from_str("Assistant with empty ID found in config"));
            }
            if a.name.as_str().is_empty() {
                proof {
                    lemma_first_invalid(assistants@, i as int);
                }
                let mut e = String::from_str("Assistant '");
                e.append(a.id.as_str());
                e.append("' has empty name");
                return Err(e);
            }
            if a.system_prompt.as_str().is_empty() {
                proof {
                    lemma_first_invalid(assistants@, i as int);
                }
                let mut e = String::from_str("Assistant '");
                e.append(a.id.as_str());
                e.append("' has empty system_prompt");
                return Err(e);
            }
            insert_assistant(&mut catalogue, clone_assistant(a));
            proof {
                lemma_insert_keeps_unique(
                    spec_build_catalogue(assistants@.subrange(0, i as int)),
                    assistants@[i as int],
                );
            }
            i = i + 1;
        }
        proof {
            assert(assistants@.subrange(0, n as int) =~= assistants@);
            lemma_first_invalid(assistants@, n as int);
        }
        let mut found = false;
        let mut j: usize = 0;
        while j < n
            invariant
                j <= n,
                n == assistants@.len(),
                found <==> exists|k: int|
                    0 <= k < j && assistants@[k].id@ == default_assistant@,
                decreases n - j,
        {
            if str_eq(assistants[j].id.as_str(), default_assistant.as_str()) {
                found = true;
                proof {
                    assert(assistants@[j as int].id@ == default_assistant@);
                }
            }
            j = j + 1;
        }
        if !found {
            let mut e = String::from_str("Default assistant '");
            e.append(default_assistant.as_str());
            e.append("' not found in assistants list");
            return Err(e);
        }
        Ok(AssistantManager { assistants: catalogue, default_id: default_assistant })
    }

    /// Looks an assistant up by id.
    pub fn get_assistant(&self, id: &str) -> (r: Option<&Assistant>)
        ensures
            r is Some <==> exists|k: int|
                0 <= k < self.spec_assistants().len() && self.spec_assistants()[k].id@ == id@,
            r matches Some(a) ==> exists|k: int|
                0 <= k < self.spec_assistants().len() && *a == self.spec_assistants()[k]
                    && a.id@ == id@,
    {
        let mut i: usize = 0;
        let n = self.assistants.len();
        while i < n
            invariant
                i <= n,
                n == self.assistants@.len(),
                forall|k: int| 0 <= k < i ==> self.assistants@[k].id@ != id@,
            decreases n - i,
        {
            if str_eq(self.assistants[i].id.as_str(), id) {
                proof {
                    assert(0 <= (i as int) && (i as int) < self.spec_assistants().len()
                        && self.spec_assistants()[i as int].id@ == id@);
                }
                return Some(&self.assistants[i]);
            }
            i = i + 1;
        }
        None
    }

    /// The default assistant: the entry the default id names, or the first
    /// entry when the default id names none.
    pub fn get_default_assistant(&self) -> (r: &Assistant)
        requires
            self.spec_assistants().len() > 0,
        ensures
            (exists|k: int|
                0 <= k < self.spec_assistants().len() && self.spec_assistants()[k].id@
                    == self.spec_default_id()) ==> *r == self.spec_assistants()[index_of_id(
                self.spec_assistants(),
                self.spec_default_id(),
            )],
            !(exists|k: int|
                0 <= k < self.spec_assistants().len() && self.spec_assistants()[k].id@
                    == self.spec_default_id()) ==> *r == self.spec_assistants()[0],
    {
        proof {
            lemma_index_of_id_in_range(self.assistants@, self.default_id@);
        }
        let mut i: usize = 0;
        let n = self.assistants.len();
        while i < n
            invariant
                i <= n,
                n == self.assistants@.len(),
                forall|k: int| 0 <= k < i ==> self.assistants@[k].id@ != self.default_id@,
            decreases n - i,
        {
            if str_eq(self.assistants[i].id.as_str(), self.default_id.as_str()) {
                proof {
                    lemma_index_of_id(self.assistants@, self.default_id@, i as int);
                }
                return &self.assistants[i];
            }
            i = i + 1;
        }
        &self.assistants[0]
    }

    /// The assistants sorted by name.
    pub fn list_assistants(&self) -> (r: Vec<&Assistant>)
        ensures
            forall|i: int, j: int|
                0 <= i < j < r@.len() ==> lex_le(#[trigger] r@[i].name@, #[trigger] r@[j].name@),
            r@.map(|i: int, a: &Assistant| *a).to_multiset()
                == self.spec_assistants().to_multiset(),
    {
        let mut out: Vec<&Assistant> = Vec::new();
        let n = self.assistants.len();
        let mut i: usize = 0;
        proof {
            broadcast use vstd::seq_lib::group_to_multiset_ensures;

            assert(out@.map(|k: int, a: &Assistant| *a) =~= Seq::<Assistant>::empty());
            assert(self.assistants@.subrange(0, 0) =~= Seq::<Assistant>::empty());
            assert(Seq::<Assistant>::empty().to_multiset() =~= Multiset::<Assistant>::empty());
        }
        while i < n
            invariant
                i <= n,
                n == self.assistants@.len(),
                forall|x: int, y: int|
                    0 <= x < y < out@.len() ==> lex_le(
                        #[trigger] out@[x].name@,
                        #[trigger] out@[y].name@,
                    ),
                out@.map(|k: int, a: &Assistant| *a).to_multiset() == self.assistants@.subrange(
                    0,
                    i as int,
                ).to_multiset(),
            decreases n - i,
        {
            let a = &self.assistants[i];
            let mut j: usize = 0;
            while j < out.len() && str_lex_le(out[j].name.as_str(), a.name.as_str())
                invariant
                    j <= out@.len(),
                    forall|k: int| 0 <= k < j ==> lex_le(#[trigger] out@[k].name@, a.name@),
                decreases out@.len() - j,
            {
                j = j + 1;
            }
            proof {
                if j < out@.len() {
                    crate::text::lemma_lex_le_total(out@[j as int].name@, a.name@);
                }
            }
            let ghost before = out@;
            out.insert(j, a);
            proof {
                broadcast use vstd::seq_lib::group_to_multiset_ensures;

                assert forall|x: int, y: int|
                    0 <= x < y < out@.len() implies lex_le(
                    #[trigger] out@[x].name@,
                    #[trigger] out@[y].name@,
                ) by {
                    if x == j && y > j + 1 {
                        crate::text::lemma_lex_le_trans_chain(
                            a.name@,
                            before[j as int].name@,
                            before[y - 1].name@,
                        );
                    }
                }
                let dm = |k: int, p: &Assistant| *p;
                assert(out@ =~= before.take(j as int).push(a) + before.skip(j as int));
                assert(out@.map(dm) =~= before.take(j as int).map(dm).push(*a) + before.skip(
                    j as int,
                ).map(dm));
                lemma_multiset_commutative(
                    before.take(j as int).map(dm).push(*a),
                    before.skip(j as int).map(dm),
                );
                lemma_multiset_commutative(before.take(j as int).map(dm), before.skip(j as int).map(dm));
                assert(before.map(dm) =~= before.take(j as int).map(dm) + before.skip(j as int).map(
                    dm,
                ));
                assert(out@.map(dm).to_multiset() =~= before.map(dm).to_multiset().insert(*a));
                assert(self.assistants@.subrange(0, i as int + 1).drop_last()
                    =~= self.assistants@.subrange(0, i as int));
                assert(self.assistants@.subrange(0, i as int + 1)
                    =~= self.assistants@.subrange(0, i as int).push(self.assistants@[i as int]));
            }
            i = i + 1;
        }
        proof {
            assert(self.assistants@.subrange(0, n as int) =~= self.assistants@);
        }
        out
    }

    /// The id of the default assistant.
    pub fn get_default_id(&self) -> (r: &str)
        ensures
            r@ == self.spec_default_id(),
    {
        self.default_id.as_str()
    }
}

/// Copies an assistant.
fn clone_assistant(a: &Assistant) -> (r: Assistant)
    ensures
        r == *a,
{
    Assistant {
        id: a.id.clone(),
        name: a.name.clone(),
        description: a.description.clone(),
        system_prompt: a.system_prompt.clone(),
        gate_instructions: a.gate_instructions.clone(),
        output_policy: a.output_policy.clone(),
    }
}

/// Inserts one assistant into the catalogue, replacing the entry with the
/// same id if one exists.
fn insert_assistant(catalogue: &mut Vec<Assistant>, a: Assistant)
    ensures
        final(catalogue)@ == spec_insert_assistant(old(catalogue)@, a),
{
    let ghost g = catalogue@;
    let n = catalogue.len();
    let mut i: usize = 0;
    while i < n
        invariant
            i <= n,
            n == catalogue@.len(),
            catalogue@ == g,
            g == old(catalogue)@,
            forall|k: int| 0 <= k < i ==> g[k].id@ != a.id@,
        decreases n - i,
    {
        if str_eq(catalogue[i].id.as_str(), a.id.as_str()) {
            proof {
                lemma_index_of_id(g, a.id@, i as int);
            }
            let _ = catalogue.remove(i);
            catalogue.insert(i, a);
            proof {
                assert(catalogue@ =~= g.update(i as int, catalogue@[i as int]));
            }
            return ;
        }
        i = i + 1;
    }
    proof {
        lemma_index_of_id(g, a.id@, n as int);
    }
    catalogue.push(a);
}

} // verus!
