//! Tools whose manifest declaration has moved ahead of the governed catalog.
//!
//! A reload publishes manifest fields and reconciles the catalog in separate
//! steps. A tool crossing that boundary is fenced with the reload's generation
//! before the manifest becomes visible, and released once a full reconcile of
//! that generation or a newer one has succeeded. Settled rows are kept as
//! witnesses, so that a transition which begins and completes while a lookup is
//! under way can still be noticed.

use vstd::prelude::*;

use crate::assoc::Assoc;
use crate::names::lemma_take_contains;

verus! {

/// Last transition observed for one tool.
#[derive(Clone, Copy, Debug, PartialEq, Eq, Structural)]
pub struct CatalogTransition {
    pub generation: u64,
    pub pending: bool,
}

pub struct CatalogTransitions {
    servers: Assoc<Assoc<CatalogTransition>>,
}

/// The row of a tool once a reload of this generation has fenced it. An older
/// reload does not move a newer fence.
pub open spec fn fenced(current: Option<CatalogTransition>, generation: u64) -> CatalogTransition {
    match current {
        Some(row) if generation < row.generation => row,
        _ => CatalogTransition { generation, pending: true },
    }
}

/// Whether a reconcile of this generation releases the row.
pub open spec fn releases(row: CatalogTransition, generation: u64) -> bool {
    row.pending && row.generation <= generation
}

/// The row once a reconcile of this generation has succeeded.
pub open spec fn released(row: CatalogTransition, generation: u64) -> CatalogTransition {
    if releases(row, generation) {
        CatalogTransition { pending: false, ..row }
    } else {
        row
    }
}

spec fn row_of(servers: Map<Seq<char>, Assoc<CatalogTransition>>, server: Seq<char>, tool: Seq<char>) -> Option<
    CatalogTransition,
> {
    if servers.contains_key(server) && servers[server]@.contains_key(tool) {
        Some(servers[server]@[tool])
    } else {
        None
    }
}

impl CatalogTransitions {
    /// The row of one tool.
    pub closed spec fn state(self, server: Seq<char>, tool: Seq<char>) -> Option<CatalogTransition> {
        row_of(self.servers@, server, tool)
    }

    /// Some tool waits for its reconcile.
    pub open spec fn some_pending(self) -> bool {
        exists|server: Seq<char>, tool: Seq<char>|
            (#[trigger] self.state(server, tool)) is Some && self.state(server, tool)->0.pending
    }

    pub fn new() -> (r: Self)
        ensures
            forall|server: Seq<char>, tool: Seq<char>| (#[trigger] r.state(server, tool)) is None,
    {
        CatalogTransitions { servers: Assoc::new() }
    }

    pub fn transition_state(&self, server: &str, tool: &str) -> (r: Option<CatalogTransition>)
        ensures
            r == self.state(server@, tool@),
    {
        match self.servers.get(server) {
            Some(rows) => match rows.get(tool) {
                Some(row) => Some(*row),
                None => None,
            },
            None => None,
        }
    }

    /// Fence the tools of one server at a reload's generation.
    pub fn mark(&mut self, server: &str, tools: &Vec<String>, generation: u64)
        ensures
            forall|s: Seq<char>, t: Seq<char>| #[trigger]
                final(self).state(s, t) == if s == server@ && tools.deep_view().contains(t) {
                    Some(fenced(old(self).state(s, t), generation))
                } else {
                    old(self).state(s, t)
                },
    {
        let ghost start = self.servers@;
        let mut rows = match self.servers.remove(server) {
            Some(rows) => rows,
            None => Assoc::new(),
        };
        let ghost held = rows@;
        let mut i: usize = 0;
        while i < tools.len()
            invariant
                i <= tools.len(),
                forall|t: Seq<char>|
                    #![trigger rows@.contains_key(t)]
                    {
                        let listed = tools.deep_view().take(i as int).contains(t);
                        &&& rows@.contains_key(t) <==> listed || held.contains_key(t)
                        &&& rows@.contains_key(t) ==> rows@[t] == if listed {
                            fenced(
                                if held.contains_key(t) {
                                    Some(held[t])
                                } else {
                                    None
                                },
                                generation,
                            )
                        } else {
                            held[t]
                        }
                    },
            decreases tools.len() - i,
        {
            let ghost before = rows@;
            let ghost here = tools.deep_view()[i as int];
            proof {
                lemma_take_contains(tools.deep_view(), i as int);
            }
            let current = match rows.get(tools[i].as_str()) {
                Some(row) => Some(*row),
                None => None,
            };
            let stays = match current {
                Some(row) => generation < row.generation,
                None => false,
            };
            if !stays {
                rows.insert(tools[i].clone(), CatalogTransition { generation, pending: true });
            }
            proof {
                assert(before.contains_key(here) == (current is Some));
            }
            i = i + 1;
        }
        proof {
            assert(tools.deep_view().take(tools.len() as int) =~= tools.deep_view());
        }
        self.servers.insert(server.to_owned(), rows);
        proof {
            assert forall|s: Seq<char>, t: Seq<char>| #[trigger]
                self.state(s, t) == if s == server@ && tools.deep_view().contains(t) {
                    Some(fenced(old(self).state(s, t), generation))
                } else {
                    old(self).state(s, t)
                } by {
                assert(old(self).state(s, t) == row_of(start, s, t));
                if s == server@ {
                    assert(rows@.contains_key(t) || !rows@.contains_key(t));
                }
            }
        }
    }

    /// Whether some tool waits for its reconcile.
    pub fn pending(&self) -> (b: bool)
        ensures
            b == self.some_pending(),
    {
        let servers = self.servers.keys();
        proof {
            assert forall|s: Seq<char>| self.servers@.contains_key(s) implies servers.deep_view().contains(
                s,
            ) by {
                assert(servers.deep_view().to_set().contains(s));
            }
        }
        let mut i: usize = 0;
        while i < servers.len()
            invariant
                i <= servers.len(),
                forall|s: Seq<char>|
                    self.servers@.contains_key(s) ==> servers.deep_view().contains(s),
                forall|j: int, t: Seq<char>|
                    0 <= j < i ==> {
                        let row = #[trigger] self.state(servers.deep_view()[j], t);
                        row is Some ==> !row->0.pending
                    },
            decreases servers.len() - i,
        {
            if let Some(rows) = self.servers.get(servers[i].as_str()) {
                if rows_pending(rows) {
                    proof {
                        let t = choose|t: Seq<char>| #[trigger]
                            rows@.contains_key(t) && rows@[t].pending;
                        assert(self.state(servers@[i as int]@, t) == Some(rows@[t]));
                    }
                    return true;
                }
            }
            i = i + 1;
        }
        proof {
            assert forall|s: Seq<char>, t: Seq<char>| (#[trigger] self.state(s, t)) is Some implies !self.state(
                s,
                t,
            )->0.pending by {
                assert(servers.deep_view().contains(s));
                let j = choose|j: int| 0 <= j < servers.len() && servers.deep_view()[j] == s;
                assert(self.state(servers.deep_view()[j], t) == self.state(s, t));
            }
        }
        false
    }

    /// Release every fence that a reconcile of this generation covers. A fence
    /// of a newer reload stays until that reload's set reaches the catalog.
    pub fn settle(&mut self, generation: u64) -> (settled: bool)
        ensures
            forall|s: Seq<char>, t: Seq<char>| #[trigger]
                final(self).state(s, t) == match old(self).state(s, t) {
                    Some(row) => Some(released(row, generation)),
                    None => None,
                },
            settled <==> exists|s: Seq<char>, t: Seq<char>|
                (#[trigger] old(self).state(s, t)) is Some && releases(
                    old(self).state(s, t)->0,
                    generation,
                ),
    {
        let ghost start = *self;
        let servers = self.servers.keys();
        proof {
            assert forall|s: Seq<char>| self.servers@.contains_key(s) implies servers.deep_view().contains(
                s,
            ) by {
                assert(servers.deep_view().to_set().contains(s));
            }
        }
        let mut settled = false;
        let mut i: usize = 0;
        while i < servers.len()
            invariant
                i <= servers.len(),
                start == *old(self),
                servers.deep_view().no_duplicates(),
                forall|s: Seq<char>|
                    start.servers@.contains_key(s) ==> servers.deep_view().contains(s),
                forall|s: Seq<char>, t: Seq<char>| #[trigger]
                    self.state(s, t) == match start.state(s, t) {
                        Some(row) => Some(
                            if servers.deep_view().take(i as int).contains(s) {
                                released(row, generation)
                            } else {
                                row
                            },
                        ),
                        None => None,
                    },
                settled <==> exists|j: int, t: Seq<char>|
                    0 <= j < i && (#[trigger] start.state(servers.deep_view()[j], t)) is Some
                        && releases(start.state(servers.deep_view()[j], t)->0, generation),
            decreases servers.len() - i,
        {
            let ghost before = *self;
            let ghost here = servers.deep_view()[i as int];
            proof {
                lemma_take_contains(servers.deep_view(), i as int);
                assert(!servers.deep_view().take(i as int).contains(here)) by {
                    if servers.deep_view().take(i as int).contains(here) {
                        let j = choose|j: int|
                            0 <= j < i && servers.deep_view().take(i as int)[j] == here;
                        assert(servers.deep_view()[j] == servers.deep_view()[i as int]);
                    }
                }
            }
            if let Some(mut rows) = self.servers.remove(servers[i].as_str()) {
                let ghost held = rows@;
                let moved = settle_rows(&mut rows, generation);
                self.servers.insert(servers[i].clone(), rows);
                proof {
                    assert forall|t: Seq<char>| held.contains_key(t) implies #[trigger] start.state(here, t) == Some(held[t]) by {
                        assert(before.state(here, t) == Some(held[t]));
                    }
                    assert forall|t: Seq<char>| (#[trigger] start.state(here, t)) is Some implies held.contains_key(t) by {
                        assert(before.state(here, t) is Some);
                    }
                    assert forall|s: Seq<char>, t: Seq<char>| #[trigger]
                        self.state(s, t) == match start.state(s, t) {
                            Some(row) => Some(
                                if servers.deep_view().take(i + 1).contains(s) {
                                    released(row, generation)
                                } else {
                                    row
                                },
                            ),
                            None => None,
                        } by {
                        assert(before.state(s, t) == row_of(before.servers@, s, t));
                        if s == here {
                            assert(held.contains_key(t) <==> rows@.contains_key(t));
                        }
                    }
                    if moved {
                        let t = choose|t: Seq<char>| #[trigger]
                            held.contains_key(t) && releases(held[t], generation);
                        assert(start.state(servers.deep_view()[i as int], t) is Some);
                    }
                }
                settled = settled || moved;
            } else {
                proof {
                    assert forall|t: Seq<char>| (#[trigger] start.state(here, t)) is None by {
                        assert(before.state(here, t) is None);
                    }
                    assert forall|s: Seq<char>, t: Seq<char>| #[trigger]
                        self.state(s, t) == match start.state(s, t) {
                            Some(row) => Some(
                                if servers.deep_view().take(i + 1).contains(s) {
                                    released(row, generation)
                                } else {
                                    row
                                },
                            ),
                            None => None,
                        } by {
                        assert(before.state(s, t) == row_of(before.servers@, s, t));
                    }
                }
            }
            i = i + 1;
        }
        proof {
            assert(servers.deep_view().take(servers.len() as int) =~= servers.deep_view());
            assert forall|s: Seq<char>, t: Seq<char>| (#[trigger] start.state(s, t)) is Some
                && releases(start.state(s, t)->0, generation) implies settled by {
                assert(servers.deep_view().contains(s));
                let j = choose|j: int| 0 <= j < servers.len() && servers.deep_view()[j] == s;
                assert(start.state(servers.deep_view()[j], t) is Some);
            }
        }
        settled
    }
}

fn rows_pending(rows: &Assoc<CatalogTransition>) -> (b: bool)
    ensures
        b == exists|t: Seq<char>| #[trigger] rows@.contains_key(t) && rows@[t].pending,
{
    let tools = rows.keys();
    let mut i: usize = 0;
    while i < tools.len()
        invariant
            i <= tools.len(),
            forall|j: int|
                0 <= j < i && rows@.contains_key(#[trigger] tools.deep_view()[j])
                    ==> !rows@[tools.deep_view()[j]].pending,
        decreases tools.len() - i,
    {
        if let Some(row) = rows.get(tools[i].as_str()) {
            if row.pending {
                proof {
                    assert(rows@.contains_key(tools@[i as int]@));
                }
                return true;
            }
        }
        i = i + 1;
    }
    proof {
        assert forall|t: Seq<char>| #[trigger] rows@.contains_key(t) implies !rows@[t].pending by {
            assert(tools.deep_view().to_set().contains(t));
            let j = choose|j: int| 0 <= j < tools.len() && tools.deep_view()[j] == t;
            assert(rows@.contains_key(tools.deep_view()[j]));
        }
    }
    false
}

fn settle_rows(rows: &mut Assoc<CatalogTransition>, generation: u64) -> (moved: bool)
    ensures
        forall|t: Seq<char>|
            #![trigger final(rows)@.contains_key(t)]
            {
                &&& final(rows)@.contains_key(t) <==> old(rows)@.contains_key(t)
                &&& final(rows)@.contains_key(t) ==> final(rows)@[t] == released(
                    old(rows)@[t],
                    generation,
                )
            },
        moved <==> exists|t: Seq<char>| #[trigger]
            old(rows)@.contains_key(t) && releases(old(rows)@[t], generation),
{
    let ghost start = rows@;
    let tools = rows.keys();
    let mut moved = false;
    let mut i: usize = 0;
    while i < tools.len()
        invariant
            i <= tools.len(),
            start == old(rows)@,
            tools.deep_view().no_duplicates(),
            tools.deep_view().to_set() == start.dom(),
            forall|t: Seq<char>|
                #![trigger rows@.contains_key(t)]
                {
                    &&& rows@.contains_key(t) <==> start.contains_key(t)
                    &&& rows@.contains_key(t) ==> rows@[t] == if tools.deep_view().take(
                        i as int,
                    ).contains(t) {
                        released(start[t], generation)
                    } else {
                        start[t]
                    }
                },
            moved <==> exists|j: int|
                0 <= j < i && releases(start[#[trigger] tools.deep_view()[j]], generation),
        decreases tools.len() - i,
    {
        let ghost here = tools.deep_view()[i as int];
        proof {
            lemma_take_contains(tools.deep_view(), i as int);
            assert(!tools.deep_view().take(i as int).contains(here)) by {
                if tools.deep_view().take(i as int).contains(here) {
                    let j = choose|j: int| 0 <= j < i && tools.deep_view().take(i as int)[j] == here;
                    assert(tools.deep_view()[j] == tools.deep_view()[i as int]);
                }
            }
            assert(tools.deep_view().to_set().contains(here));
            assert(rows@.contains_key(here));
        }
        let row = match rows.get(tools[i].as_str()) {
            Some(row) => Some(*row),
            None => None,
        };
        if let Some(row) = row {
            if row.pending && row.generation <= generation {
                proof {
                    assert(releases(start[tools.deep_view()[i as int]], generation));
                }
                rows.insert(
                    tools[i].clone(),
                    CatalogTransition { generation: row.generation, pending: false },
                );
                moved = true;
            }
        }
        i = i + 1;
    }
    proof {
        assert(tools.deep_view().take(tools.len() as int) =~= tools.deep_view());
        assert forall|t: Seq<char>| start.contains_key(t) implies tools.deep_view().contains(t) by {
            assert(tools.deep_view().to_set().contains(t));
        }
        if exists|t: Seq<char>| #[trigger] start.contains_key(t) && releases(start[t], generation) {
            let t = choose|t: Seq<char>| #[trigger]
                start.contains_key(t) && releases(start[t], generation);
            let j = choose|j: int| 0 <= j < tools.len() && tools.deep_view()[j] == t;
            assert(releases(start[tools.deep_view()[j]], generation));
        }
        if moved {
            let j = choose|j: int|
                0 <= j < tools.len() && releases(start[#[trigger] tools.deep_view()[j]], generation);
            assert(tools.deep_view().to_set().contains(tools.deep_view()[j]));
            assert(start.contains_key(tools.deep_view()[j]));
        }
    }
    moved
}

/// An older reload neither moves a newer fence nor releases it, and a reconcile
/// of the fence's own generation does release it.
pub proof fn newer_fence_outlives_older_reloads(row: CatalogTransition, older: u64)
    requires
        older < row.generation,
    ensures
        fenced(Some(row), older) == row,
        released(row, older) == row,
        !released(row, row.generation).pending,
        released(row, row.generation).generation == row.generation,
{
}

/// A fence takes the generation it is raised for and stands, unless a newer one
/// is there, which stays as it is.
pub proof fn a_fence_stands_for_its_generation(
    current: Option<CatalogTransition>,
    generation: u64,
)
    ensures
        current is None || current->0.generation <= generation ==> fenced(current, generation) == (
        CatalogTransition { generation, pending: true }),
        current is Some && current->0.generation > generation ==> fenced(current, generation)
            == current->0,
        fenced(current, generation).generation >= generation,
        current is Some ==> fenced(current, generation).generation >= current->0.generation,
{
}

/// A reconcile releases exactly the standing fences of its generation and of
/// older ones; a fence that was released stays so, with its generation, and
/// nothing else is touched.
pub proof fn a_reconcile_releases_what_it_has_seen(row: CatalogTransition, generation: u64)
    ensures
        row.pending && row.generation <= generation ==> releases(row, generation) && !released(
            row,
            generation,
        ).pending,
        !row.pending || row.generation > generation ==> !releases(row, generation) && released(
            row,
            generation,
        ) == row,
        released(row, generation).generation == row.generation,
        released(released(row, generation), generation) == released(row, generation),
{
}

/// What a reload fences, the reconcile of the same reload releases, unless a
/// newer reload has fenced it since.
pub proof fn a_reload_releases_its_own_fences(
    current: Option<CatalogTransition>,
    generation: u64,
    newer: u64,
)
    requires
        current is Some ==> current->0.generation <= generation,
    ensures
        !released(fenced(current, generation), generation).pending,
        newer > generation ==> released(
            fenced(Some(fenced(current, generation)), newer),
            generation,
        ).pending,
{
}

/// A reconcile is owed exactly where some tool of some server is fenced.
pub proof fn a_standing_fence_is_pending(
    transitions: CatalogTransitions,
    server: Seq<char>,
    tool: Seq<char>,
)
    ensures
        transitions.state(server, tool) is Some && transitions.state(server, tool)->0.pending
            ==> transitions.some_pending(),
        (forall|s: Seq<char>, t: Seq<char>|
            (#[trigger] transitions.state(s, t)) is Some ==> !transitions.state(s, t)->0.pending)
            ==> !transitions.some_pending(),
{
}

} // verus!
