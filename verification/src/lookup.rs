use vstd::prelude::*;

use crate::addr::{Address, SegmentView};

verus! {

/// The network endpoint a local node alias stands for: exactly one of a DNS
/// host, an IPv4 address or an IPv6 address, each with its TCP port. The
/// variant tag, not the content, decides how resolution encodes the host.
#[derive(Debug, Clone, PartialEq, Eq)]
pub enum NodeRecord {
    Dns(String, u16),
    Ip4([u8; 4], u16),
    Ip6([u8; 16], u16),
}

/// The mathematical value of a `NodeRecord`.
pub enum NodeRecordView {
    Dns(Seq<char>, u16),
    Ip4(Seq<u8>, u16),
    Ip6(Seq<u8>, u16),
}

impl View for NodeRecord {
    type V = NodeRecordView;

    open spec fn view(&self) -> NodeRecordView {
        match self {
            NodeRecord::Dns(h, p) => NodeRecordView::Dns(h@, *p),
            NodeRecord::Ip4(o, p) => NodeRecordView::Ip4(o@, *p),
            NodeRecord::Ip6(o, p) => NodeRecordView::Ip6(o@, *p),
        }
    }
}

/// What the project directory stores for a project alias: the full route to
/// the project's entry node, and the identity that messages on that
/// sub-route must present.
#[derive(Debug, Clone, PartialEq, Eq)]
pub struct ProjectRecord {
    pub route: Address,
    pub identity_id: String,
}

/// The mathematical value of a `ProjectRecord`.
pub struct ProjectRecordView {
    pub route: Seq<SegmentView>,
    pub identity_id: Seq<char>,
}

impl View for ProjectRecord {
    type V = ProjectRecordView;

    open spec fn view(&self) -> ProjectRecordView {
        ProjectRecordView { route: self.route@, identity_id: self.identity_id@ }
    }
}

/// One node entry of the lookup.
#[derive(Debug, Clone, PartialEq, Eq)]
pub struct NodeEntry {
    pub alias: String,
    pub record: NodeRecord,
}

/// One project entry of the lookup.
#[derive(Debug, Clone, PartialEq, Eq)]
pub struct ProjectEntry {
    pub alias: String,
    pub record: ProjectRecord,
}

/// The alias directory resolution consults: local node aliases and cached
/// project aliases. It is an explicitly owned value handed to the resolver;
/// the surrounding runtime repopulates the project side when the resolver
/// reports a miss. The earliest entry for an alias wins.
#[derive(Debug, Clone, PartialEq, Eq)]
pub struct AddressLookup {
    pub nodes: Vec<NodeEntry>,
    pub projects: Vec<ProjectEntry>,
}

/// The first node record under `alias`, searching front to back.
pub open spec fn find_node(entries: Seq<NodeEntry>, alias: Seq<char>) -> Option<NodeRecordView>
    decreases entries.len(),
{
    if entries.len() == 0 {
        None
    } else if entries[0].alias@ == alias {
        Some(entries[0].record@)
    } else {
        find_node(entries.subrange(1, entries.len() as int), alias)
    }
}

/// The first project record under `alias`, searching front to back.
pub open spec fn find_project(entries: Seq<ProjectEntry>, alias: Seq<char>) -> Option<
    ProjectRecordView,
>
    decreases entries.len(),
{
    if entries.len() == 0 {
        None
    } else if entries[0].alias@ == alias {
        Some(entries[0].record@)
    } else {
        find_project(entries.subrange(1, entries.len() as int), alias)
    }
}

impl AddressLookup {
    /// An empty directory.
    pub fn new() -> (r: AddressLookup)
        ensures
            r.nodes@.len() == 0,
            r.projects@.len() == 0,
    {
        AddressLookup { nodes: Vec::new(), projects: Vec::new() }
    }

    /// The node record `alias` stands for, if any.
    pub open spec fn spec_node(&self, alias: Seq<char>) -> Option<NodeRecordView> {
        find_node(self.nodes@, alias)
    }

    /// The cached project record under `alias`, if any.
    pub open spec fn spec_project(&self, alias: Seq<char>) -> Option<ProjectRecordView> {
        find_project(self.projects@, alias)
    }

    /// Registers a node alias.
    pub fn add_node(&mut self, alias: String, record: NodeRecord)
        ensures
            final(self).nodes@ == old(self).nodes@.push(
                NodeEntry { alias: alias, record: record },
            ),
            final(self).projects@ == old(self).projects@,
    {
        self.nodes.push(NodeEntry { alias, record });
    }

    /// Registers a project alias.
    pub fn add_project(&mut self, alias: String, record: ProjectRecord)
        ensures
            final(self).projects@ == old(self).projects@.push(
                ProjectEntry { alias: alias, record: record },
            ),
            final(self).nodes@ == old(self).nodes@,
    {
        self.projects.push(ProjectEntry { alias, record });
    }

    /// Looks up a node alias.
    pub fn get_node(&self, alias: &String) -> (r: Option<&NodeRecord>)
        ensures
            match r {
                Some(record) => self.spec_node(alias@) == Some(record@),
                None => self.spec_node(alias@) is None,
            },
    {
        let mut i: usize = 0;
        proof {
            assert(self.nodes@.subrange(0, self.nodes@.len() as int) =~= self.nodes@);
        }
        while i < self.nodes.len()
            invariant
                i <= self.nodes.len(),
                find_node(self.nodes@, alias@) == find_node(
                    self.nodes@.subrange(i as int, self.nodes@.len() as int),
                    alias@,
                ),
            decreases self.nodes.len() - i,
        {
            proof {
                assert(self.nodes@.subrange(i as int, self.nodes@.len() as int)[0]
                    == self.nodes@[i as int]);
                assert(self.nodes@.subrange(i as int, self.nodes@.len() as int).subrange(
                    1,
                    self.nodes@.len() - i as int,
                ) =~= self.nodes@.subrange(i as int + 1, self.nodes@.len() as int));
            }
            if self.nodes[i].alias == *alias {
                return Some(&self.nodes[i].record);
            }
            i = i + 1;
        }
        None
    }

    /// Looks up a project alias.
    pub fn get_project(&self, alias: &String) -> (r: Option<&ProjectRecord>)
        ensures
            match r {
                Some(record) => self.spec_project(alias@) == Some(record@),
                None => self.spec_project(alias@) is None,
            },
    {
        let mut i: usize = 0;
        proof {
            assert(self.projects@.subrange(0, self.projects@.len() as int) =~= self.projects@);
        }
        while i < self.projects.len()
            invariant
                i <= self.projects.len(),
                find_project(self.projects@, alias@) == find_project(
                    self.projects@.subrange(i as int, self.projects@.len() as int),
                    alias@,
                ),
            decreases self.projects.len() - i,
        {
            proof {
                assert(self.projects@.subrange(i as int, self.projects@.len() as int)[0]
                    == self.projects@[i as int]);
                assert(self.projects@.subrange(i as int, self.projects@.len() as int).subrange(
                    1,
                    self.projects@.len() - i as int,
                ) =~= self.projects@.subrange(i as int + 1, self.projects@.len() as int));
            }
            if self.projects[i].alias == *alias {
                return Some(&self.projects[i].record);
            }
            i = i + 1;
        }
        None
    }
}

} // verus!
