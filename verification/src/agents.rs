//! Agent definitions: named presets for child agents.
use vstd::prelude::*;

use crate::text::{opt_text, same, texts, Text};

verus! {

/// Settings that a definition can make and that nothing enforces yet.
#[derive(Debug, Clone, Copy, PartialEq, Eq, Structural)]
pub enum UnenforcedField {
    MaxTurns,
    Background,
    Memory,
    Hooks,
    McpServers,
    Isolation,
}

pub open spec fn field_text(field: UnenforcedField) -> Text {
    match field {
        UnenforcedField::MaxTurns => "max_turns"@,
        UnenforcedField::Background => "background"@,
        UnenforcedField::Memory => "memory"@,
        UnenforcedField::Hooks => "hooks"@,
        UnenforcedField::McpServers => "mcp_servers"@,
        UnenforcedField::Isolation => "isolation"@,
    }
}

pub fn field_name(field: UnenforcedField) -> (r: &'static str)
    ensures
        r@ == field_text(field),
{
    match field {
        UnenforcedField::MaxTurns => "max_turns",
        UnenforcedField::Background => "background",
        UnenforcedField::Memory => "memory",
        UnenforcedField::Hooks => "hooks",
        UnenforcedField::McpServers => "mcp_servers",
        UnenforcedField::Isolation => "isolation",
    }
}

/// A preset for a child agent.
#[derive(Debug)]
pub struct AgentDefinition {
    pub name: String,
    pub tools: Vec<String>,
    pub disallowed_tools: Vec<String>,
    pub model: Option<String>,
    /// The settings that the definition makes and that nothing enforces.
    pub unenforced: Vec<UnenforcedField>,
}

#[verifier::ext_equal]
pub struct AgentDefinitionView {
    pub name: Text,
    pub tools: Seq<Text>,
    pub disallowed_tools: Seq<Text>,
    pub model: Option<Text>,
    pub unenforced: Seq<UnenforcedField>,
}

impl View for AgentDefinition {
    type V = AgentDefinitionView;

    open spec fn view(&self) -> AgentDefinitionView {
        AgentDefinitionView {
            name: self.name@,
            tools: texts(self.tools@),
            disallowed_tools: texts(self.disallowed_tools@),
            model: opt_text(self.model),
            unenforced: self.unenforced@,
        }
    }
}

/// A definition under its id.
#[derive(Debug)]
struct AgentEntry {
    id: String,
    definition: AgentDefinition,
}

/// The definitions by id, in the order in which the ids were first inserted.
#[derive(Debug)]
pub struct AgentDefinitions {
    entries: Vec<AgentEntry>,
}

spec fn entry_ids(entries: Seq<AgentEntry>) -> Seq<Text> {
    Seq::new(entries.len(), |i: int| entries[i].id@)
}

spec fn first_entry(entries: Seq<AgentEntry>, id: Text) -> Option<AgentDefinitionView>
    decreases entries.len(),
{
    if entries.len() == 0 {
        None
    } else if entries[0].id@ == id {
        Some(entries[0].definition@)
    } else {
        first_entry(entries.drop_first(), id)
    }
}

proof fn lemma_replaced(entries: Seq<AgentEntry>, i: int, entry: AgentEntry)
    requires
        0 <= i < entries.len(),
        entries[i].id@ == entry.id@,
        forall|j: int| 0 <= j < i ==> entries[j].id@ != entry.id@,
    ensures
        forall|other: Text|
            first_entry(entries.update(i, entry), other) == if other == entry.id@ {
                Some(entry.definition@)
            } else {
                first_entry(entries, other)
            },
    decreases entries.len(),
{
    let after = entries.update(i, entry);
    if i == 0 {
        assert(after.drop_first() =~= entries.drop_first());
    } else {
        lemma_replaced(entries.drop_first(), i - 1, entry);
        assert(after.drop_first() =~= entries.drop_first().update(i - 1, entry));
        assert(after[0] == entries[0]);
        assert forall|other: Text| first_entry(after, other) == if other == entry.id@ {
            Some(entry.definition@)
        } else {
            first_entry(entries, other)
        } by {
            let rest = entries.drop_first();
            assert(first_entry(rest.update(i - 1, entry), other) == if other == entry.id@ {
                Some(entry.definition@)
            } else {
                first_entry(rest, other)
            });
        }
    }
}

proof fn lemma_appended(entries: Seq<AgentEntry>, entry: AgentEntry)
    requires
        forall|j: int| 0 <= j < entries.len() ==> entries[j].id@ != entry.id@,
    ensures
        forall|other: Text|
            first_entry(entries.push(entry), other) == if other == entry.id@ {
                Some(entry.definition@)
            } else {
                first_entry(entries, other)
            },
    decreases entries.len(),
{
    let after = entries.push(entry);
    if entries.len() == 0 {
        assert(after[0] == entry);
        assert(after.drop_first() =~= entries);
        assert forall|other: Text| first_entry(after, other) == if other == entry.id@ {
            Some(entry.definition@)
        } else {
            first_entry(entries, other)
        } by {
            assert(first_entry(after.drop_first(), other) is None);
        }
    } else {
        lemma_appended(entries.drop_first(), entry);
        assert(after.drop_first() =~= entries.drop_first().push(entry));
        assert(after[0] == entries[0]);
        assert forall|other: Text| first_entry(after, other) == if other == entry.id@ {
            Some(entry.definition@)
        } else {
            first_entry(entries, other)
        } by {
            let rest = entries.drop_first();
            assert(first_entry(rest.push(entry), other) == if other == entry.id@ {
                Some(entry.definition@)
            } else {
                first_entry(rest, other)
            });
        }
    }
}

impl AgentDefinitions {
    /// The definition under an id.
    pub closed spec fn find(&self, id: Text) -> Option<AgentDefinitionView> {
        first_entry(self.entries@, id)
    }

    /// The ids in order.
    pub closed spec fn order(&self) -> Seq<Text> {
        entry_ids(self.entries@)
    }

    pub fn new() -> (r: AgentDefinitions)
        ensures
            r.order() == Seq::<Text>::empty(),
            forall|id: Text| r.find(id) is None,
    {
        let r = AgentDefinitions { entries: Vec::new() };
        proof {
            assert(r.order() =~= Seq::<Text>::empty());
        }
        r
    }

    pub fn is_empty(&self) -> (r: bool)
        ensures
            r == (self.order().len() == 0),
    {
        self.entries.len() == 0
    }

    /// Puts a definition under an id, in place of the one that is there.
    pub fn insert(&mut self, id: &str, definition: AgentDefinition)
        ensures
            forall|other: Text|
                final(self).find(other) == if other == id@ {
                    Some(definition@)
                } else {
                    old(self).find(other)
                },
            final(self).order() == if old(self).order().contains(id@) {
                old(self).order()
            } else {
                old(self).order().push(id@)
            },
    {
        let ghost before = self.entries@;
        let mut i: usize = 0;
        while i < self.entries.len() && !same(self.entries[i].id.as_str(), id)
            invariant
                i <= self.entries.len(),
                *self == *old(self),
                before == self.entries@,
                forall|j: int| 0 <= j < i ==> before[j].id@ != id@,
            decreases self.entries.len() - i,
        {
            i += 1;
        }
        let entry = AgentEntry { id: id.to_owned(), definition };
        if i < self.entries.len() {
            proof {
                lemma_replaced(before, i as int, entry);
                assert(entry_ids(before)[i as int] == id@);
                assert(entry_ids(before.update(i as int, entry)) =~= entry_ids(before));
            }
            self.entries.set(i, entry);
        } else {
            proof {
                lemma_appended(before, entry);
                assert(entry_ids(before.push(entry)) =~= entry_ids(before).push(id@));
            }
            self.entries.push(entry);
        }
    }

    /// The definition under an id.
    pub fn get(&self, id: &str) -> (r: Option<&AgentDefinition>)
        ensures
            match r {
                Some(d) => self.find(id@) == Some(d@),
                None => self.find(id@) is None,
            },
    {
        let ghost all = self.entries@;
        let mut i: usize = 0;
        proof {
            assert(all.skip(0) =~= all);
        }
        while i < self.entries.len()
            invariant
                i <= self.entries.len(),
                all == self.entries@,
                first_entry(all, id@) == first_entry(all.skip(i as int), id@),
            decreases self.entries.len() - i,
        {
            proof {
                assert(all.skip(i as int).drop_first() =~= all.skip(i + 1));
            }
            if same(self.entries[i].id.as_str(), id) {
                return Some(&self.entries[i].definition);
            }
            i += 1;
        }
        None
    }

    /// The ids in order.
    pub fn ids(&self) -> (r: Vec<String>)
        ensures
            texts(r@) == self.order(),
    {
        let mut r: Vec<String> = Vec::new();
        let mut i: usize = 0;
        while i < self.entries.len()
            invariant
                i <= self.entries.len(),
                r@.len() == i,
                forall|j: int| 0 <= j < i ==> (#[trigger] r@[j])@ == self.entries@[j].id@,
            decreases self.entries.len() - i,
        {
            r.push(self.entries[i].id.clone());
            i += 1;
        }
        proof {
            assert(texts(r@) =~= self.order());
        }
        r
    }
}

} // verus!
