//! Region manager for tracking region distribution.
//!
//! The manager keeps three maps: region records by id, the region ids of each
//! table, and the region ids hosted by each node. Its well-formedness ties
//! them together: every listed id has a record, a table's list names only
//! regions of that table, a node's list names only regions on that node, and
//! every record is listed under its table.

use vstd::prelude::*;
use dashmap::DashMap;
use std::collections::HashMap;
use crate::dmap::{
    node_lists, node_lists_get, node_lists_insert, node_lists_new, node_lists_remove,
    node_lists_entries, region_records, region_records_get, region_records_insert,
    region_records_len, region_records_new, table_lists, table_lists_contains,
    table_lists_entries, table_lists_get, table_lists_insert, table_lists_len, table_lists_new,
};
use crate::decimal::{chars_from, chars_have_prefix, chars_to_string, str_to_chars};
use crate::error::{DistributedError, Result};
use crate::ids::{NodeId, RegionId};
use crate::region::{
    PartitionRange, RegionInfo, RegionStatus, bucket_end, bucket_size, bucket_start,
    status_serves_query,
};

verus! {

broadcast use vstd::std_specs::hash::group_hash_axioms;

/// Configuration for the RegionManager.
#[derive(Debug, Clone, Copy)]
pub struct RegionManagerConfig {
    /// Default number of regions for new tables
    pub default_num_regions: usize,
    /// Maximum regions per node
    pub max_regions_per_node: usize,
}

impl Default for RegionManagerConfig {
    fn default() -> (r: Self)
        ensures
            r.default_num_regions == 4,
            r.max_regions_per_node == 100,
    {
        RegionManagerConfig { default_num_regions: 4, max_regions_per_node: 100 }
    }
}

/// The key under which a table's regions are listed: `database.table`.
pub open spec fn table_key(database: Seq<char>, table: Seq<char>) -> Seq<char> {
    database + "."@ + table
}

/// The table key of a region record.
pub open spec fn region_key(r: RegionInfo) -> Seq<char> {
    table_key(r.database@, r.table@)
}

/// Builds the key `database.table`.
pub fn make_table_key(database: &str, table: &str) -> (k: String)
    ensures
        k@ == table_key(database@, table@),
{
    let mut k = String::from_str(database);
    k.append(".");
    k.append(table);
    k
}

/// Every record is stored under its own id, and ids lie below `next`.
pub open spec fn ids_valid(r: Map<u64, RegionInfo>, next: u64) -> bool {
    forall|id: u64| #[trigger] r.contains_key(id) ==> r[id].region_id.0 == id && id < next
}

/// Table lists name recorded regions of that table, each once.
pub open spec fn table_lists_valid(r: Map<u64, RegionInfo>, t: Map<Seq<char>, Seq<RegionId>>) -> bool {
    &&& forall|k: Seq<char>, i: int| #![trigger t[k][i]]
        t.contains_key(k) && 0 <= i < t[k].len() ==> r.contains_key(t[k][i].0) && region_key(
            r[t[k][i].0],
        ) == k
    &&& forall|k: Seq<char>| #[trigger] t.contains_key(k) ==> t[k].no_duplicates()
}

/// Node lists name recorded regions hosted on that node, each once.
pub open spec fn node_lists_valid(r: Map<u64, RegionInfo>, n: Map<u64, Seq<RegionId>>) -> bool {
    &&& forall|x: u64, i: int| #![trigger n[x][i]]
        n.contains_key(x) && 0 <= i < n[x].len() ==> r.contains_key(n[x][i].0) && r[n[x][i].0].node_id.0
            == x
    &&& forall|x: u64| #[trigger] n.contains_key(x) ==> n[x].no_duplicates()
}

/// The record of `id` is listed under its table.
pub open spec fn is_listed(r: Map<u64, RegionInfo>, t: Map<Seq<char>, Seq<RegionId>>, id: u64) -> bool {
    t.contains_key(region_key(r[id])) && t[region_key(r[id])].contains(RegionId(id))
}

/// Every record is listed under its table.
pub open spec fn regions_listed(r: Map<u64, RegionInfo>, t: Map<Seq<char>, Seq<RegionId>>) -> bool {
    forall|id: u64| #[trigger] r.contains_key(id) ==> is_listed(r, t, id)
}

/// The record that `create_table_regions` makes for the `j`-th new region.
pub open spec fn is_created_region(
    r: RegionInfo,
    base: u64,
    j: int,
    database: Seq<char>,
    table: Seq<char>,
    nodes: Seq<NodeId>,
    count: nat,
) -> bool {
    &&& r.region_id.0 == base + j
    &&& r.database@ == database
    &&& r.table@ == table
    &&& r.node_id == nodes[j % nodes.len() as int]
    &&& r.partition_range == (PartitionRange {
        time_start_ns: None,
        time_end_ns: None,
        hash_start: bucket_start(j as u16, count as u16),
        hash_end: bucket_end(j as u16, count as u16),
    })
    &&& r.status == RegionStatus::Active
    &&& r.epoch == 0
}

/// The node lists after the first `count` new regions, numbered from `base`,
/// were appended round-robin over `nodes`.
pub open spec fn nodes_after_create(
    n: Map<u64, Seq<RegionId>>,
    base: u64,
    nodes: Seq<NodeId>,
    count: nat,
) -> Map<u64, Seq<RegionId>>
    decreases count,
{
    if count == 0 {
        n
    } else {
        let m = nodes_after_create(n, base, nodes, (count - 1) as nat);
        let x = nodes[(count - 1) % nodes.len() as int].0;
        let prev = if m.contains_key(x) {
            m[x]
        } else {
            Seq::empty()
        };
        m.insert(x, prev.push(RegionId((base + count - 1) as u64)))
    }
}

/// The number of regions `create_table_regions` makes for a request of `num_regions`.
pub open spec fn effective_region_count(num_regions: usize, config: RegionManagerConfig) -> nat {
    if num_regions == 0 {
        config.default_num_regions as nat
    } else {
        num_regions as nat
    }
}

/// The regions of a list, looked up in the records.
/// The message when regions are asked for a table that has them.
pub open spec fn table_has_regions_message(database: Seq<char>, table: Seq<char>) -> Seq<char> {
    "Table "@ + database + "."@ + table + " already has regions"@
}

pub open spec fn lookup_all(r: Map<u64, RegionInfo>, ids: Seq<RegionId>) -> Seq<RegionInfo> {
    Seq::new(ids.len(), |i: int| r[ids[i].0])
}

/// `s` with every occurrence of `x` taken out, order kept.
pub open spec fn seq_without(s: Seq<RegionId>, x: RegionId) -> Seq<RegionId>
    decreases s.len(),
{
    if s.len() == 0 {
        s
    } else {
        let rest = seq_without(s.drop_last(), x);
        if s.last() == x {
            rest
        } else {
            rest.push(s.last())
        }
    }
}

/// What is left of a sequence after taking `x` out: the other elements, and
/// still each once if they were.
proof fn lemma_seq_without(s: Seq<RegionId>, x: RegionId)
    ensures
        forall|k: int| #![trigger seq_without(s, x)[k]] 0 <= k < seq_without(s, x).len()
            ==> seq_without(s, x)[k] != x && s.contains(seq_without(s, x)[k]),
        forall|k: int| #![trigger s[k]] 0 <= k < s.len() && s[k] != x ==> seq_without(s, x).contains(s[k]),
        s.no_duplicates() ==> seq_without(s, x).no_duplicates(),
    decreases s.len(),
{
    if s.len() > 0 {
        let d = s.drop_last();
        let rest = seq_without(d, x);
        let l = s.last();
        lemma_seq_without(d, x);
        assert forall|k: int| 0 <= k < d.len() implies s.contains(#[trigger] d[k]) by {
            assert(s[k] == d[k]);
        }
        if s.no_duplicates() {
            assert forall|a: int, b: int| 0 <= a < d.len() && 0 <= b < d.len() && a != b implies d[a]
                != d[b] by {
                assert(s[a] == d[a] && s[b] == d[b]);
            }
            assert(!d.contains(l)) by {
                if d.contains(l) {
                    let j = choose|j: int| 0 <= j < d.len() && d[j] == l;
                    assert(s[j] == s[s.len() - 1]);
                }
            }
        }
        if l != x {
            let w = rest.push(l);
            assert forall|k: int| 0 <= k < w.len() implies #[trigger] w[k] != x && s.contains(w[k]) by {
                if k < rest.len() {
                    assert(w[k] == rest[k]);
                } else {
                    assert(s[s.len() - 1] == w[k]);
                }
            }
            assert forall|k: int| 0 <= k < s.len() && #[trigger] s[k] != x implies w.contains(s[k]) by {
                if k < d.len() {
                    assert(d[k] == s[k]);
                    let j = choose|j: int| 0 <= j < rest.len() && rest[j] == d[k];
                    assert(w[j] == rest[j]);
                } else {
                    assert(w[w.len() - 1] == s[k]);
                }
            }
            if s.no_duplicates() {
                assert forall|a: int, b: int| 0 <= a < w.len() && 0 <= b < w.len() && a != b implies w[a]
                    != w[b] by {
                    if a < rest.len() && b < rest.len() {
                        assert(w[a] == rest[a] && w[b] == rest[b]);
                    } else if a < rest.len() {
                        assert(w[a] == rest[a]);
                        assert(d.contains(rest[a]));
                    } else if b < rest.len() {
                        assert(w[b] == rest[b]);
                        assert(d.contains(rest[b]));
                    }
                }
            }
        } else {
            assert forall|k: int| 0 <= k < s.len() && #[trigger] s[k] != x implies rest.contains(s[k]) by {
                assert(k < d.len());
                assert(d[k] == s[k]);
            }
        }
    }
}

/// A record with its status replaced.
pub open spec fn with_status(r: RegionInfo, status: RegionStatus) -> RegionInfo {
    RegionInfo {
        region_id: r.region_id,
        database: r.database,
        table: r.table,
        node_id: r.node_id,
        partition_range: r.partition_range,
        status,
        epoch: r.epoch,
    }
}

/// A record moved to another node, one epoch later.
pub open spec fn reassigned(r: RegionInfo, node: NodeId) -> RegionInfo {
    RegionInfo {
        region_id: r.region_id,
        database: r.database,
        table: r.table,
        node_id: node,
        partition_range: r.partition_range,
        status: r.status,
        epoch: (r.epoch + 1) as u64,
    }
}

/// The node lists after region `id` moved from node `from` to node `to`:
/// taken out of `from`'s list, if there is one, then appended to `to`'s.
pub open spec fn hosted_after_assign(
    n: Map<u64, Seq<RegionId>>,
    id: RegionId,
    from: u64,
    to: u64,
) -> Map<u64, Seq<RegionId>> {
    let n1 = if n.contains_key(from) {
        n.insert(from, seq_without(n[from], id))
    } else {
        n
    };
    let prev = if n1.contains_key(to) {
        n1[to]
    } else {
        Seq::empty()
    };
    n1.insert(to, prev.push(id))
}

/// The records after every region of `ids` was marked offline.
pub open spec fn marked_offline(r: Map<u64, RegionInfo>, ids: Seq<RegionId>) -> Map<u64, RegionInfo> {
    Map::new(
        |id: u64| r.contains_key(id),
        |id: u64|
            if ids.contains(RegionId(id)) {
                with_status(r[id], RegionStatus::Offline)
            } else {
                r[id]
            },
    )
}

/// A region matches a query when its time range overlaps the query's, it
/// holds the hash (if one is given), and it can serve queries.
pub open spec fn region_matches(
    r: RegionInfo,
    time_start_ns: Option<i64>,
    time_end_ns: Option<i64>,
    hash_value: Option<u16>,
) -> bool {
    &&& r.partition_range.spec_overlaps_time_range(time_start_ns, time_end_ns)
    &&& match hash_value {
        Some(h) => r.partition_range.spec_contains_hash(h),
        None => true,
    }
    &&& status_serves_query(r.status)
}

/// Routing a query only ever picks regions that can serve queries: every
/// region kept from a table's regions `rs` is active, read-only or
/// migrating, never offline, being created or being deleted; and it is one
/// of the table's regions whose time range and hash fit the query.
pub proof fn law_matching_regions_can_serve(
    rs: Seq<RegionInfo>,
    time_start_ns: Option<i64>,
    time_end_ns: Option<i64>,
    hash_value: Option<u16>,
    kept: Seq<RegionInfo>,
)
    requires
        kept == rs.filter(|r: RegionInfo| region_matches(r, time_start_ns, time_end_ns, hash_value)),
    ensures
        forall|r: RegionInfo|
            #[trigger] kept.contains(r) ==> {
                &&& (r.status == RegionStatus::Active || r.status == RegionStatus::ReadOnly || r.status
                    == RegionStatus::Migrating)
                &&& rs.contains(r)
                &&& r.partition_range.spec_overlaps_time_range(time_start_ns, time_end_ns)
                &&& (hash_value matches Some(h) ==> r.partition_range.spec_contains_hash(h))
            },
{
    let pred = |r: RegionInfo| region_matches(r, time_start_ns, time_end_ns, hash_value);
    rs.filter_lemma(pred);
    assert forall|r: RegionInfo| #[trigger] kept.contains(r) implies pred(r) && rs.contains(r) by {
        let i = choose|i: int| 0 <= i < kept.len() && kept[i] == r;
        assert(pred(kept[i]));
        rs.lemma_filter_contains_rev(pred, r);
    }
}

/// How many regions a node hosts according to the node lists.
pub open spec fn load_of(n: Map<u64, Seq<RegionId>>, x: u64) -> nat {
    if n.contains_key(x) {
        n[x].len()
    } else {
        0
    }
}

/// The prefix of every table key of a database: `database.`
pub open spec fn database_prefix(database: Seq<char>) -> Seq<char> {
    database + "."@
}

/// A table key belongs to the database when it starts with its prefix.
pub open spec fn in_database(key: Seq<char>, database: Seq<char>) -> bool {
    database_prefix(database).is_prefix_of(key)
}

/// Manages region distribution across the cluster.
///
/// The RegionManager tracks which regions exist, where they are located,
/// and provides methods for region assignment and lookup.
pub struct RegionManager {
    /// All regions indexed by region id
    regions: DashMap<u64, RegionInfo>,
    /// Region ids indexed by table (`database.table`)
    table_regions: DashMap<String, Vec<RegionId>>,
    /// Region ids indexed by node id
    node_regions: DashMap<u64, Vec<RegionId>>,
    /// Next region ID to assign
    next_region_id: u64,
    /// Configuration for region management
    config: RegionManagerConfig,
}

impl RegionManager {
    /// The region records by id.
    pub closed spec fn records(&self) -> Map<u64, RegionInfo> {
        region_records(self.regions)
    }

    /// The region ids of each table key.
    pub closed spec fn tables(&self) -> Map<Seq<char>, Seq<RegionId>> {
        table_lists(self.table_regions)
    }

    /// The region ids hosted by each node.
    pub closed spec fn hosted(&self) -> Map<u64, Seq<RegionId>> {
        node_lists(self.node_regions)
    }

    /// The id the next created region gets.
    pub closed spec fn next_id(&self) -> u64 {
        self.next_region_id
    }

    /// The configuration the manager was made with.
    pub closed spec fn spec_config(&self) -> RegionManagerConfig {
        self.config
    }

    /// The manager's maps agree with each other.
    pub open spec fn wf(&self) -> bool {
        &&& self.records().dom().finite()
        &&& self.tables().dom().finite()
        &&& self.hosted().dom().finite()
        &&& self.next_id() >= 1
        &&& ids_valid(self.records(), self.next_id())
        &&& table_lists_valid(self.records(), self.tables())
        &&& node_lists_valid(self.records(), self.hosted())
        &&& regions_listed(self.records(), self.tables())
    }

    /// Create a new RegionManager.
    pub fn new(config: RegionManagerConfig) -> (m: Self)
        ensures
            m.wf(),
            m.records().dom() == Set::<u64>::empty(),
            m.tables().dom() == Set::<Seq<char>>::empty(),
            m.hosted().dom() == Set::<u64>::empty(),
            m.next_id() == 1,
            m.spec_config() == config,
    {
        RegionManager {
            regions: region_records_new(),
            table_regions: table_lists_new(),
            node_regions: node_lists_new(),
            next_region_id: 1,
            config,
        }
    }

    /// Create a new RegionManager with default configuration.
    pub fn with_defaults() -> (m: Self)
        ensures
            m.wf(),
            m.records().dom() == Set::<u64>::empty(),
            m.tables().dom() == Set::<Seq<char>>::empty(),
            m.hosted().dom() == Set::<u64>::empty(),
            m.next_id() == 1,
            m.spec_config().default_num_regions == 4,
            m.spec_config().max_regions_per_node == 100,
    {
        RegionManager::new(RegionManagerConfig::default())
    }

    /// Create regions for a new table.
    ///
    /// This creates the requested number of regions (the configured default
    /// when zero is asked for) with hash-based partitioning, numbers them from
    /// the next free id, and assigns them round-robin to the given nodes.
    pub fn create_table_regions(
        &mut self,
        database: &str,
        table: &str,
        num_regions: usize,
        available_nodes: &[NodeId],
    ) -> (res: Result<Vec<RegionInfo>>)
        requires
            old(self).wf(),
            available_nodes@.len() > 0 && !old(self).tables().contains_key(table_key(database@, table@)) ==> {
                &&& effective_region_count(num_regions, old(self).spec_config()) <= u16::MAX
                &&& old(self).next_id() + effective_region_count(num_regions, old(self).spec_config())
                    <= u64::MAX
            },
        ensures
            final(self).wf(),
            final(self).spec_config() == old(self).spec_config(),
            available_nodes@.len() == 0 ==> res == Err::<Vec<RegionInfo>, DistributedError>(
                DistributedError::ClusterNotInitialized,
            ),
            available_nodes@.len() > 0 && old(self).tables().contains_key(table_key(database@, table@))
                ==> (res matches Err(DistributedError::InvalidRequest(m)) && m@ == table_has_regions_message(
                database@,
                table@,
            )),
            res is Err ==> *final(self) == *old(self),
            res is Ok <==> (available_nodes@.len() > 0 && !old(self).tables().contains_key(
                table_key(database@, table@),
            )),
            res matches Ok(created) ==> {
                let base = old(self).next_id();
                let count = effective_region_count(num_regions, old(self).spec_config());
                &&& created@.len() == count
                &&& forall|j: int| 0 <= j < count ==> is_created_region(
                    #[trigger] created@[j],
                    base,
                    j,
                    database@,
                    table@,
                    available_nodes@,
                    count,
                )
                &&& final(self).next_id() == base + count
                &&& final(self).records() == old(self).records().union_prefer_right(
                    Map::new(|id: u64| base <= id < base + count, |id: u64| created@[id - base]),
                )
                &&& final(self).tables() == old(self).tables().insert(
                    table_key(database@, table@),
                    Seq::new(count, |j: int| RegionId((base + j) as u64)),
                )
                &&& final(self).hosted() == nodes_after_create(
                    old(self).hosted(),
                    base,
                    available_nodes@,
                    count,
                )
            },
    {
        if available_nodes.len() == 0 {
            return Err(DistributedError::ClusterNotInitialized);
        }
        let key = make_table_key(database, table);
        if table_lists_contains(&self.table_regions, &key) {
            let mut msg = String::from_str("Table ");
            msg.append(database);
            msg.append(".");
            msg.append(table);
            msg.append(" already has regions");
            proof {
                reveal_strlit("Table ");
                reveal_strlit(".");
                reveal_strlit(" already has regions");
            }
            assert(msg@ =~= table_has_regions_message(database@, table@));
            return Err(DistributedError::InvalidRequest(msg));
        }
        let num_regions = if num_regions == 0 {
            self.config.default_num_regions
        } else {
            num_regions
        };
        let ghost base = self.next_region_id;
        let ghost old_records = self.records();
        let ghost old_hosted = self.hosted();
        let ghost tables = self.tables();
        let ghost count = num_regions as nat;
        let ghost db = database@;
        let ghost tb = table@;
        let mut created: Vec<RegionInfo> = Vec::new();
        let mut region_ids: Vec<RegionId> = Vec::new();
        let mut i: usize = 0;
        while i < num_regions
            invariant
                self.spec_config() == old(self).spec_config(),
                count == num_regions,
                count <= u16::MAX,
                base + count <= u64::MAX,
                base >= 1,
                i <= num_regions,
                available_nodes@.len() > 0,
                key@ == table_key(db, tb),
                db == database@,
                tb == table@,
                !tables.contains_key(key@),
                self.next_id() == base + i,
                self.tables() == tables,
                self.records().dom().finite(),
                self.hosted().dom().finite(),
                tables.dom().finite(),
                ids_valid(self.records(), self.next_id()),
                table_lists_valid(self.records(), tables),
                node_lists_valid(self.records(), self.hosted()),
                forall|id: u64| #[trigger] old_records.contains_key(id) ==> is_listed(old_records, tables, id),
                forall|id: u64| #[trigger] old_records.contains_key(id) ==> id < base,
                self.records() == old_records.union_prefer_right(
                    Map::new(|id: u64| base <= id < base + i, |id: u64| created@[id - base]),
                ),
                self.hosted() == nodes_after_create(old_hosted, base, available_nodes@, i as nat),
                created@.len() == i,
                forall|j: int| 0 <= j < i ==> is_created_region(
                    #[trigger] created@[j],
                    base,
                    j,
                    db,
                    tb,
                    available_nodes@,
                    count,
                ),
                region_ids@ == Seq::new(i as nat, |j: int| RegionId((base + j) as u64)),
            decreases num_regions - i,
        {
            let region_id = RegionId::new(self.next_region_id);
            self.next_region_id = self.next_region_id + 1;
            let node_id = available_nodes[i % available_nodes.len()];
            proof {
                let bs = bucket_size(num_regions as u16);
                assert((i + 1) * bs <= u32::MAX) by (nonlinear_arith)
                    requires
                        bs == 65536int / (num_regions as int),
                        i + 1 <= num_regions,
                        num_regions >= 1,
                ;
            }
            let partition_range = PartitionRange::for_hash_bucket(i as u16, num_regions as u16);
            let info = RegionInfo::new(
                region_id,
                String::from_str(database),
                String::from_str(table),
                node_id,
                partition_range,
            );
            let ghost records_before = self.records();
            let ghost hosted_before = self.hosted();
            region_records_insert(&mut self.regions, region_id.0, info.copy());
            let mut list = match node_lists_get(&self.node_regions, node_id.0) {
                Some(v) => v,
                None => Vec::new(),
            };
            let ghost list_before = list@;
            list.push(region_id);
            node_lists_insert(&mut self.node_regions, node_id.0, list);
            region_ids.push(region_id);
            created.push(info);
            proof {
                let rid = region_id.0;
                let x = node_id.0;
                let r = self.records();
                let n = self.hosted();
                assert(!records_before.contains_key(rid));
                // Records: one more created entry.
                assert(r =~= old_records.union_prefer_right(
                    Map::new(|id: u64| base <= id < base + i + 1, |id: u64| created@[id - base]),
                ));
                // Ids stay valid.
                assert forall|id: u64| #[trigger] r.contains_key(id) implies r[id].region_id.0 == id
                    && id < self.next_id() by {
                    if id != rid {
                        assert(records_before.contains_key(id));
                    }
                }
                // Table lists still name the same (unchanged) records.
                assert forall|k: Seq<char>, j: int| #![trigger tables[k][j]]
                    tables.contains_key(k) && 0 <= j < tables[k].len() implies r.contains_key(
                        tables[k][j].0,
                    ) && region_key(r[tables[k][j].0]) == k by {
                    assert(records_before.contains_key(tables[k][j].0));
                }
                // Node lists: the pushed id is fresh and hosted on x.
                assert(list_before.no_duplicates());
                assert forall|y: u64, j: int| #![trigger n[y][j]]
                    n.contains_key(y) && 0 <= j < n[y].len() implies r.contains_key(n[y][j].0)
                        && r[n[y][j].0].node_id.0 == y by {
                    if y == x {
                        if j < list_before.len() {
                            assert(n[y][j] == list_before[j]);
                            assert(hosted_before.contains_key(x) && hosted_before[x][j] == list_before[j]);
                        }
                    } else {
                        assert(hosted_before[y][j] == n[y][j]);
                    }
                }
                assert forall|j: int| 0 <= j < list_before.len() implies list_before[j] != region_id by {
                    assert(hosted_before.contains_key(x) && hosted_before[x][j] == list_before[j]);
                    assert(records_before.contains_key(list_before[j].0));
                }
                assert(list_before.push(region_id).no_duplicates()) by {
                    assert forall|a: int, b: int| 0 <= a < b < list_before.len() + 1 implies
                        list_before.push(region_id)[a] != list_before.push(region_id)[b] by {
                        if b < list_before.len() as int {
                            assert(list_before[a] != list_before[b]);
                        }
                    }
                }
                assert forall|y: u64| #[trigger] n.contains_key(y) implies n[y].no_duplicates() by {
                    if y != x {
                        assert(hosted_before.contains_key(y));
                    }
                }
                assert(region_ids@ =~= Seq::new((i + 1) as nat, |j: int| RegionId((base + j) as u64)));
                assert forall|id: u64| #[trigger] old_records.contains_key(id) implies is_listed(
                    old_records,
                    tables,
                    id,
                ) by {}
            }
            i = i + 1;
        }
        let ghost final_list = region_ids@;
        table_lists_insert(&mut self.table_regions, key, region_ids);
        proof {
            let r = self.records();
            let t = self.tables();
            let k = table_key(db, tb);
            assert(t == tables.insert(k, final_list));
            // The new list is free of duplicates.
            assert(final_list.no_duplicates());
            // Table lists: old ones unchanged; the new one names the created records.
            assert forall|kk: Seq<char>, j: int| #![trigger t[kk][j]]
                t.contains_key(kk) && 0 <= j < t[kk].len() implies r.contains_key(t[kk][j].0)
                    && region_key(r[t[kk][j].0]) == kk by {
                if kk == k {
                    assert(t[kk][j] == RegionId((base + j) as u64));
                    assert(r.contains_key((base + j) as u64));
                    assert(r[(base + j) as u64] == created@[j]);
                } else {
                    assert(tables[kk][j] == t[kk][j]);
                }
            }
            assert forall|kk: Seq<char>| #[trigger] t.contains_key(kk) implies t[kk].no_duplicates() by {
                if kk != k {
                    assert(tables.contains_key(kk));
                }
            }
            // Every record is listed.
            assert forall|id: u64| #[trigger] r.contains_key(id) implies is_listed(r, t, id) by {
                if old_records.contains_key(id) {
                    assert(is_listed(old_records, tables, id));
                    assert(r[id] == old_records[id]);
                    assert(region_key(old_records[id]) != k);
                } else {
                    let j = id - base;
                    assert(r[id] == created@[j]);
                    assert(region_key(r[id]) == k);
                    assert(t[k][j] == RegionId(id));
                }
            }
        }
        Ok(created)
    }
}

impl RegionManager {
    /// The records of the listed regions, in list order; every id must be
    /// recorded.
    fn lookup_regions(&self, ids: &Vec<RegionId>) -> (out: Vec<RegionInfo>)
        requires
            forall|i: int| 0 <= i < ids@.len() ==> self.records().contains_key(#[trigger] ids@[i].0),
        ensures
            out@ == lookup_all(self.records(), ids@),
    {
        let mut out: Vec<RegionInfo> = Vec::new();
        let mut i: usize = 0;
        while i < ids.len()
            invariant
                i <= ids.len(),
                forall|k: int| 0 <= k < ids@.len() ==> self.records().contains_key(#[trigger] ids@[k].0),
                out@ == lookup_all(self.records(), ids@.take(i as int)),
            decreases ids.len() - i,
        {
            let found = region_records_get(&self.regions, ids[i].0);
            if let Some(info) = found {
                out.push(info);
            }
            i = i + 1;
            assert(out@ =~= lookup_all(self.records(), ids@.take(i as int)));
        }
        assert(ids@.take(ids.len() as int) =~= ids@);
        out
    }

    /// Get all regions for a table.
    pub fn get_table_regions(&self, database: &str, table: &str) -> (res: Result<Vec<RegionInfo>>)
        requires
            self.wf(),
        ensures
            self.tables().contains_key(table_key(database@, table@)) ==> (res matches Ok(v) && v@
                == lookup_all(self.records(), self.tables()[table_key(database@, table@)])),
            !self.tables().contains_key(table_key(database@, table@)) ==> (res matches Err(
                DistributedError::TableNotFound { database: d, table: t },
            ) && d@ == database@ && t@ == table@),
    {
        let key = make_table_key(database, table);
        match table_lists_get(&self.table_regions, &key) {
            Some(ids) => {
                proof {
                    assert forall|i: int| 0 <= i < ids@.len() implies self.records().contains_key(
                        #[trigger] ids@[i].0,
                    ) by {
                        assert(self.tables()[key@][i] == ids@[i]);
                    }
                }
                Ok(self.lookup_regions(&ids))
            },
            None => Err(
                DistributedError::TableNotFound {
                    database: String::from_str(database),
                    table: String::from_str(table),
                },
            ),
        }
    }

    /// Get a specific region by ID.
    pub fn get_region(&self, region_id: RegionId) -> (res: Result<RegionInfo>)
        ensures
            self.records().contains_key(region_id.0) ==> res == Ok::<RegionInfo, DistributedError>(
                self.records()[region_id.0],
            ),
            !self.records().contains_key(region_id.0) ==> res == Err::<RegionInfo, DistributedError>(
                DistributedError::RegionNotFound { region_id: region_id.0 },
            ),
    {
        match region_records_get(&self.regions, region_id.0) {
            Some(r) => Ok(r),
            None => Err(DistributedError::RegionNotFound { region_id: region_id.get() }),
        }
    }

    /// Get all regions assigned to a node.
    pub fn get_node_regions(&self, node_id: NodeId) -> (out: Vec<RegionInfo>)
        requires
            self.wf(),
        ensures
            self.hosted().contains_key(node_id.0) ==> out@ == lookup_all(
                self.records(),
                self.hosted()[node_id.0],
            ),
            !self.hosted().contains_key(node_id.0) ==> out@.len() == 0,
    {
        match node_lists_get(&self.node_regions, node_id.0) {
            Some(ids) => {
                proof {
                    assert forall|i: int| 0 <= i < ids@.len() implies self.records().contains_key(
                        #[trigger] ids@[i].0,
                    ) by {
                        assert(self.hosted()[node_id.0][i] == ids@[i]);
                    }
                }
                self.lookup_regions(&ids)
            },
            None => Vec::new(),
        }
    }

    /// Get total number of regions.
    pub fn total_regions(&self) -> (n: usize)
        ensures
            n == self.records().len(),
    {
        region_records_len(&self.regions)
    }

    /// Get total number of tables.
    pub fn total_tables(&self) -> (n: usize)
        ensures
            n == self.tables().len(),
    {
        table_lists_len(&self.table_regions)
    }
}

impl RegionManager {
    /// The node lists without `id` in the list of `from`, where there is one.
    fn take_out_of_node(&mut self, id: RegionId, from: u64)
        ensures
            final(self).records() == old(self).records(),
            final(self).tables() == old(self).tables(),
            final(self).next_id() == old(self).next_id(),
            final(self).spec_config() == old(self).spec_config(),
            old(self).hosted().contains_key(from) ==> final(self).hosted() == old(self).hosted().insert(
                from,
                seq_without(old(self).hosted()[from], id),
            ),
            !old(self).hosted().contains_key(from) ==> final(self).hosted() == old(self).hosted(),
    {
        if let Some(list) = node_lists_get(&self.node_regions, from) {
            let mut kept: Vec<RegionId> = Vec::new();
            let mut i: usize = 0;
            while i < list.len()
                invariant
                    i <= list.len(),
                    kept@ == seq_without(list@.take(i as int), id),
                decreases list.len() - i,
            {
                assert(list@.take(i + 1).drop_last() =~= list@.take(i as int));
                if list[i] != id {
                    kept.push(list[i]);
                }
                i = i + 1;
            }
            assert(list@.take(list.len() as int) =~= list@);
            node_lists_insert(&mut self.node_regions, from, kept);
        }
    }

    /// Assign a region to a node.
    ///
    /// The region leaves its old node's list and joins the new node's list;
    /// its record names the new node and its epoch grows by one.
    pub fn assign_region(&mut self, region_id: RegionId, new_node_id: NodeId) -> (res: Result<()>)
        requires
            old(self).wf(),
            old(self).records().contains_key(region_id.0) ==> old(self).records()[region_id.0].epoch
                < u64::MAX,
        ensures
            final(self).wf(),
            final(self).tables() == old(self).tables(),
            final(self).next_id() == old(self).next_id(),
            final(self).spec_config() == old(self).spec_config(),
            !old(self).records().contains_key(region_id.0) ==> res == Err::<(), DistributedError>(
                DistributedError::RegionNotFound { region_id: region_id.0 },
            ) && *final(self) == *old(self),
            old(self).records().contains_key(region_id.0) ==> {
                let r = old(self).records()[region_id.0];
                &&& res is Ok
                &&& final(self).records() == old(self).records().insert(
                    region_id.0,
                    reassigned(r, new_node_id),
                )
                &&& final(self).hosted() == hosted_after_assign(
                    old(self).hosted(),
                    region_id,
                    r.node_id.0,
                    new_node_id.0,
                )
            },
    {
        let found = region_records_get(&self.regions, region_id.0);
        let mut region = match found {
            Some(r) => r,
            None => {
                return Err(DistributedError::RegionNotFound { region_id: region_id.get() });
            },
        };
        let ghost r0 = self.records();
        let ghost n0 = self.hosted();
        let ghost t0 = self.tables();
        let old_node_id = region.node_id;
        self.take_out_of_node(region_id, old_node_id.0);
        let ghost n1 = self.hosted();
        let mut list = match node_lists_get(&self.node_regions, new_node_id.0) {
            Some(v) => v,
            None => Vec::new(),
        };
        let ghost prev = list@;
        list.push(region_id);
        node_lists_insert(&mut self.node_regions, new_node_id.0, list);
        region.node_id = new_node_id;
        region.epoch = region.epoch + 1;
        let ghost rec = region;
        region_records_insert(&mut self.regions, region_id.0, region);
        proof {
            let id = region_id.0;
            let from = old_node_id.0;
            let to = new_node_id.0;
            let r = self.records();
            let n = self.hosted();
            assert(r == r0.insert(id, rec));
            assert(rec == reassigned(r0[id], new_node_id));
            if n0.contains_key(from) {
                lemma_seq_without(n0[from], region_id);
            }
            // The new list does not hold the region yet.
            assert(!prev.contains(region_id)) by {
                if prev.contains(region_id) {
                    let j = choose|j: int| 0 <= j < prev.len() && prev[j] == region_id;
                    assert(n1.contains_key(to) && n1[to][j] == region_id);
                    if to == from && n0.contains_key(from) {
                        assert(seq_without(n0[from], region_id)[j] != region_id);
                    } else {
                        assert(n0[to][j] == region_id);
                    }
                }
            }
            assert(prev.push(region_id).no_duplicates()) by {
                if n1.contains_key(to) {
                    if !(to == from && n0.contains_key(from)) {
                        assert(n0.contains_key(to));
                    }
                }
                assert forall|a: int, b: int| 0 <= a < prev.len() + 1 && 0 <= b < prev.len() + 1 && a != b
                    implies prev.push(region_id)[a] != prev.push(region_id)[b] by {
                    if a < prev.len() && b < prev.len() {
                    } else if a < prev.len() {
                        assert(prev[a] != region_id) by {
                            if prev[a] == region_id {
                                assert(prev.contains(region_id));
                            }
                        }
                    } else {
                        assert(prev[b] != region_id) by {
                            if prev[b] == region_id {
                                assert(prev.contains(region_id));
                            }
                        }
                    }
                }
            }
            // Ids stay valid.
            assert forall|k: u64| #[trigger] r.contains_key(k) implies r[k].region_id.0 == k && k
                < self.next_id() by {
                if k != id {
                    assert(r0.contains_key(k));
                }
            }
            // Table lists name the same records, whose keys did not change.
            assert forall|kk: Seq<char>, j: int| #![trigger t0[kk][j]]
                t0.contains_key(kk) && 0 <= j < t0[kk].len() implies r.contains_key(t0[kk][j].0)
                    && region_key(r[t0[kk][j].0]) == kk by {
                assert(r0.contains_key(t0[kk][j].0));
            }
            // Node lists.
            assert forall|y: u64, j: int| #![trigger n[y][j]]
                n.contains_key(y) && 0 <= j < n[y].len() implies r.contains_key(n[y][j].0)
                    && r[n[y][j].0].node_id.0 == y by {
                if y == to {
                    if j < prev.len() {
                        assert(n[y][j] == prev[j]);
                        if from == to && n0.contains_key(from) {
                            let w = seq_without(n0[from], region_id);
                            assert(w[j] != region_id && n0[from].contains(w[j]));
                            let q = choose|q: int| 0 <= q < n0[from].len() && n0[from][q] == w[j];
                            assert(r0.contains_key(n0[from][q].0));
                        } else {
                            assert(n0[to][j] == prev[j]);
                            assert(r0.contains_key(prev[j].0) && r0[prev[j].0].node_id.0 == to);
                            assert(prev[j].0 != id);
                        }
                    }
                } else if y == from && n0.contains_key(from) {
                    let w = seq_without(n0[from], region_id);
                    assert(n[y] == w);
                    assert(w[j] != region_id && n0[from].contains(w[j]));
                    let q = choose|q: int| 0 <= q < n0[from].len() && n0[from][q] == w[j];
                    assert(r0.contains_key(n0[from][q].0));
                } else {
                    assert(n[y] == n0[y]);
                    assert(r0.contains_key(n0[y][j].0) && r0[n0[y][j].0].node_id.0 == y);
                }
            }
            assert forall|y: u64| #[trigger] n.contains_key(y) implies n[y].no_duplicates() by {
                if y != to && !(y == from && n0.contains_key(from)) {
                    assert(n[y] == n0[y]);
                }
            }
            assert forall|k: u64| #[trigger] r.contains_key(k) implies is_listed(r, t0, k) by {
                assert(r0.contains_key(k));
                assert(is_listed(r0, t0, k));
            }
            assert(n == hosted_after_assign(n0, region_id, from, to));
        }
        Ok(())
    }

    /// Update region status.
    pub fn update_region_status(&mut self, region_id: RegionId, status: RegionStatus) -> (res: Result<()>)
        requires
            old(self).wf(),
        ensures
            final(self).wf(),
            final(self).tables() == old(self).tables(),
            final(self).hosted() == old(self).hosted(),
            final(self).next_id() == old(self).next_id(),
            final(self).spec_config() == old(self).spec_config(),
            !old(self).records().contains_key(region_id.0) ==> res == Err::<(), DistributedError>(
                DistributedError::RegionNotFound { region_id: region_id.0 },
            ) && *final(self) == *old(self),
            old(self).records().contains_key(region_id.0) ==> res is Ok && final(self).records()
                == old(self).records().insert(
                region_id.0,
                with_status(old(self).records()[region_id.0], status),
            ),
    {
        let found = region_records_get(&self.regions, region_id.0);
        let mut region = match found {
            Some(r) => r,
            None => {
                return Err(DistributedError::RegionNotFound { region_id: region_id.get() });
            },
        };
        let ghost r0 = self.records();
        region.status = status;
        region_records_insert(&mut self.regions, region_id.0, region);
        proof {
            let r = self.records();
            let t = self.tables();
            let n = self.hosted();
            assert forall|k: u64| #[trigger] r.contains_key(k) implies r[k].region_id.0 == k && k
                < self.next_id() by {
                assert(r0.contains_key(k));
            }
            assert forall|kk: Seq<char>, j: int| #![trigger t[kk][j]]
                t.contains_key(kk) && 0 <= j < t[kk].len() implies r.contains_key(t[kk][j].0)
                    && region_key(r[t[kk][j].0]) == kk by {
                assert(r0.contains_key(t[kk][j].0));
            }
            assert forall|y: u64, j: int| #![trigger n[y][j]]
                n.contains_key(y) && 0 <= j < n[y].len() implies r.contains_key(n[y][j].0)
                    && r[n[y][j].0].node_id.0 == y by {
                assert(r0.contains_key(n[y][j].0));
            }
            assert forall|k: u64| #[trigger] r.contains_key(k) implies is_listed(r, t, k) by {
                assert(is_listed(r0, t, k));
            }
        }
        Ok(())
    }

    /// Remove all regions for a node (called when node goes offline).
    ///
    /// The node's list goes away and every region on it is marked offline;
    /// the ids that were on the list come back.
    pub fn remove_node_regions(&mut self, node_id: NodeId) -> (ids: Vec<RegionId>)
        requires
            old(self).wf(),
        ensures
            final(self).wf(),
            final(self).tables() == old(self).tables(),
            final(self).next_id() == old(self).next_id(),
            final(self).spec_config() == old(self).spec_config(),
            final(self).hosted() == old(self).hosted().remove(node_id.0),
            old(self).hosted().contains_key(node_id.0) ==> ids@ == old(self).hosted()[node_id.0],
            !old(self).hosted().contains_key(node_id.0) ==> ids@.len() == 0,
            final(self).records() == marked_offline(old(self).records(), ids@),
    {
        let ghost r0 = self.records();
        let ghost n0 = self.hosted();
        let removed = node_lists_remove(&mut self.node_regions, node_id.0);
        let ids = match removed {
            Some(v) => v,
            None => Vec::new(),
        };
        let mut i: usize = 0;
        while i < ids.len()
            invariant
                i <= ids.len(),
                self.tables() == old(self).tables(),
                self.hosted() == n0.remove(node_id.0),
                self.next_id() == old(self).next_id(),
                self.spec_config() == old(self).spec_config(),
                r0 == old(self).records(),
                n0 == old(self).hosted(),
                n0.contains_key(node_id.0) ==> ids@ == n0[node_id.0],
                !n0.contains_key(node_id.0) ==> ids@.len() == 0,
                self.records() == marked_offline(r0, ids@.take(i as int)),
                old(self).wf(),
            decreases ids.len() - i,
        {
            let ghost before = self.records();
            let id = ids[i];
            assert(r0.contains_key(id.0)) by {
                assert(n0[node_id.0][i as int] == id);
            }
            if let Some(mut region) = region_records_get(&self.regions, id.0) {
                region.status = RegionStatus::Offline;
                region_records_insert(&mut self.regions, id.0, region);
            }
            i = i + 1;
            proof {
                let t = ids@.take(i as int);
                let t0 = ids@.take(i - 1);
                assert forall|k: u64| t.contains(RegionId(k)) <==> (t0.contains(RegionId(k)) || k
                    == id.0) by {
                    if t.contains(RegionId(k)) {
                        let j = choose|j: int| 0 <= j < t.len() && t[j] == RegionId(k);
                        if j < i - 1 {
                            assert(t0[j] == RegionId(k));
                        }
                    }
                    if t0.contains(RegionId(k)) {
                        let j = choose|j: int| 0 <= j < t0.len() && t0[j] == RegionId(k);
                        assert(t[j] == RegionId(k));
                    }
                    if k == id.0 {
                        assert(t[i - 1] == id);
                    }
                }
                assert(self.records() =~= marked_offline(r0, t));
            }
        }
        proof {
            assert(ids@.take(ids.len() as int) =~= ids@);
            let r = self.records();
            assert(r.dom() =~= r0.dom());
            let t = self.tables();
            let n = self.hosted();
            assert forall|k: u64| #[trigger] r.contains_key(k) implies r[k].region_id.0 == k && k
                < self.next_id() by {
                assert(r0.contains_key(k));
            }
            assert forall|kk: Seq<char>, j: int| #![trigger t[kk][j]]
                t.contains_key(kk) && 0 <= j < t[kk].len() implies r.contains_key(t[kk][j].0)
                    && region_key(r[t[kk][j].0]) == kk by {
                assert(r0.contains_key(t[kk][j].0));
            }
            assert forall|y: u64, j: int| #![trigger n[y][j]]
                n.contains_key(y) && 0 <= j < n[y].len() implies r.contains_key(n[y][j].0)
                    && r[n[y][j].0].node_id.0 == y by {
                assert(n0[y][j] == n[y][j]);
                assert(r0.contains_key(n[y][j].0));
            }
            assert forall|y: u64| #[trigger] n.contains_key(y) implies n[y].no_duplicates() by {
                assert(n0.contains_key(y));
            }
            assert forall|k: u64| #[trigger] r.contains_key(k) implies is_listed(r, t, k) by {
                assert(is_listed(r0, t, k));
            }
        }
        ids
    }
}

impl RegionManager {
    /// Find regions that match a time and hash range (for query routing).
    ///
    /// Keeps, in table order, the regions whose time range overlaps the
    /// query's, that hold the hash when one is given, and that can serve
    /// queries.
    pub fn find_matching_regions(
        &self,
        database: &str,
        table: &str,
        time_start_ns: Option<i64>,
        time_end_ns: Option<i64>,
        hash_value: Option<u16>,
    ) -> (res: Result<Vec<RegionInfo>>)
        requires
            self.wf(),
        ensures
            self.tables().contains_key(table_key(database@, table@)) ==> (res matches Ok(v) && v@
                == lookup_all(self.records(), self.tables()[table_key(database@, table@)]).filter(
                |r: RegionInfo| region_matches(r, time_start_ns, time_end_ns, hash_value),
            )),
            res matches Ok(v) ==> forall|i: int|
                0 <= i < v@.len() ==> ((#[trigger] v@[i]).status == RegionStatus::Active || v@[i].status
                    == RegionStatus::ReadOnly || v@[i].status == RegionStatus::Migrating),
            !self.tables().contains_key(table_key(database@, table@)) ==> (res matches Err(
                DistributedError::TableNotFound { database: d, table: t },
            ) && d@ == database@ && t@ == table@),
    {
        let regions = self.get_table_regions(database, table)?;
        let ghost pred = |r: RegionInfo| region_matches(r, time_start_ns, time_end_ns, hash_value);
        let mut matching: Vec<RegionInfo> = Vec::new();
        let mut i: usize = 0;
        while i < regions.len()
            invariant
                i <= regions.len(),
                pred == (|r: RegionInfo| region_matches(r, time_start_ns, time_end_ns, hash_value)),
                matching@ == regions@.take(i as int).filter(pred),
            decreases regions.len() - i,
        {
            let r = &regions[i];
            let time_matches = r.partition_range.overlaps_time_range(time_start_ns, time_end_ns);
            let hash_matches = match hash_value {
                Some(h) => r.partition_range.contains_hash(h),
                None => true,
            };
            let keep = time_matches && hash_matches && r.can_serve_query();
            proof {
                reveal(Seq::filter);
                assert(regions@.take(i + 1).drop_last() =~= regions@.take(i as int));
                assert(regions@.take(i + 1).last() == regions@[i as int]);
            }
            if keep {
                matching.push(r.copy());
            }
            i = i + 1;
        }
        assert(regions@.take(regions.len() as int) =~= regions@);
        proof {
            law_matching_regions_can_serve(regions@, time_start_ns, time_end_ns, hash_value, matching@);
            assert forall|i: int| 0 <= i < matching@.len() implies (#[trigger] matching@[i]).status
                == RegionStatus::Active || matching@[i].status == RegionStatus::ReadOnly || matching@[i].status
                == RegionStatus::Migrating by {
                assert(matching@.contains(matching@[i]));
            }
        }
        Ok(matching)
    }

    /// Get count of regions per node (for load balancing).
    pub fn get_node_region_counts(&self) -> (counts: HashMap<u64, usize>)
        ensures
            counts@.dom() == self.hosted().dom(),
            forall|x: u64| #[trigger] counts@.contains_key(x) ==> counts@[x] == self.hosted()[x].len(),
    {
        let entries = node_lists_entries(&self.node_regions);
        let mut counts: HashMap<u64, usize> = HashMap::new();
        let mut i: usize = 0;
        while i < entries.len()
            invariant
                i <= entries.len(),
                forall|j: int| #![trigger entries@[j]] 0 <= j < entries@.len() ==> self.hosted().contains_key(
                    entries@[j].0,
                ) && self.hosted()[entries@[j].0] == entries@[j].1@,
                forall|x: u64| #[trigger] counts@.contains_key(x) <==> exists|j: int|
                    0 <= j < i && #[trigger] entries@[j].0 == x,
                forall|x: u64| #[trigger] counts@.contains_key(x) ==> self.hosted().contains_key(x)
                    && counts@[x] == self.hosted()[x].len(),
            decreases entries.len() - i,
        {
            let n = entries[i].1.len();
            counts.insert(entries[i].0, n);
            proof {
                assert(entries@[i as int].0 == entries[i as int].0);
            }
            i = i + 1;
        }
        proof {
            assert forall|x: u64| counts@.contains_key(x) <==> self.hosted().contains_key(x) by {
                if self.hosted().contains_key(x) {
                    let j = choose|j: int| 0 <= j < entries@.len() && #[trigger] entries@[j].0 == x;
                }
            }
            assert(counts@.dom() =~= self.hosted().dom());
        }
        counts
    }

    /// Find the node with the least regions (for new region assignment).
    ///
    /// The first candidate with the fewest regions; `None` when there are no
    /// candidates.
    pub fn find_least_loaded_node(&self, candidates: &[NodeId]) -> (best: Option<NodeId>)
        ensures
            candidates@.len() == 0 <==> best is None,
            best matches Some(b) ==> exists|i: int| {
                &&& 0 <= i < candidates@.len()
                &&& #[trigger] candidates@[i] == b
                &&& forall|j: int| 0 <= j < candidates@.len() ==> load_of(self.hosted(), b.0)
                    <= load_of(self.hosted(), #[trigger] candidates@[j].0)
                &&& forall|j: int| 0 <= j < i ==> load_of(self.hosted(), b.0) < load_of(
                    self.hosted(),
                    #[trigger] candidates@[j].0,
                )
            },
    {
        let counts = self.get_node_region_counts();
        if candidates.len() == 0 {
            return None;
        }
        let mut best_index: usize = 0;
        let mut best_load: usize = match counts.get(&candidates[0].0) {
            Some(c) => *c,
            None => 0,
        };
        let mut i: usize = 1;
        while i < candidates.len()
            invariant
                1 <= i <= candidates.len(),
                best_index < i,
                counts@.dom() == self.hosted().dom(),
                forall|x: u64| #[trigger] counts@.contains_key(x) ==> counts@[x] == self.hosted()[x].len(),
                best_load == load_of(self.hosted(), candidates@[best_index as int].0),
                forall|j: int| 0 <= j < i ==> best_load <= load_of(self.hosted(), #[trigger] candidates@[j].0),
                forall|j: int| 0 <= j < best_index ==> best_load < load_of(
                    self.hosted(),
                    #[trigger] candidates@[j].0,
                ),
            decreases candidates.len() - i,
        {
            let load: usize = match counts.get(&candidates[i].0) {
                Some(c) => *c,
                None => 0,
            };
            if load < best_load {
                best_index = i;
                best_load = load;
            }
            i = i + 1;
        }
        Some(candidates[best_index])
    }
}

/// The region ids of a sequence of records.
pub open spec fn region_ids_of(s: Seq<RegionInfo>) -> Seq<RegionId> {
    s.map_values(|x: RegionInfo| x.region_id)
}

/// The keys and lists of a walk over the table lists, as plain values.
pub open spec fn entry_views(e: Seq<(String, Vec<RegionId>)>) -> Seq<(Seq<char>, Seq<RegionId>)> {
    e.map_values(|x: (String, Vec<RegionId>)| (x.0@, x.1@))
}

/// The regions of the listed tables that belong to the database, table by
/// table in walk order.
pub open spec fn db_regions(
    r: Map<u64, RegionInfo>,
    es: Seq<(Seq<char>, Seq<RegionId>)>,
    database: Seq<char>,
) -> Seq<RegionInfo>
    decreases es.len(),
{
    if es.len() == 0 {
        Seq::empty()
    } else {
        let before = db_regions(r, es.drop_last(), database);
        if in_database(es.last().0, database) {
            before + lookup_all(r, es.last().1)
        } else {
            before
        }
    }
}

/// What `db_regions` gathers: recorded regions of the database, each once,
/// and every region listed under a key of the database.
proof fn lemma_db_regions(
    r: Map<u64, RegionInfo>,
    t: Map<Seq<char>, Seq<RegionId>>,
    es: Seq<(Seq<char>, Seq<RegionId>)>,
    database: Seq<char>,
)
    requires
        table_lists_valid(r, t),
        forall|id: u64| #[trigger] r.contains_key(id) ==> r[id].region_id.0 == id,
        forall|j: int| #![trigger es[j]] 0 <= j < es.len() ==> t.contains_key(es[j].0) && t[es[j].0]
            == es[j].1,
        forall|a: int, b: int| 0 <= a < b < es.len() ==> es[a].0 != es[b].0,
    ensures
        forall|m: int| #![trigger db_regions(r, es, database)[m]] 0 <= m < db_regions(r, es, database).len() ==> {
            let x = db_regions(r, es, database)[m];
            &&& r.contains_key(x.region_id.0)
            &&& r[x.region_id.0] == x
            &&& in_database(region_key(x), database)
            &&& exists|j: int| 0 <= j < es.len() && #[trigger] es[j].0 == region_key(x)
        },
        forall|j: int, q: int| #![trigger es[j].1[q]]
            0 <= j < es.len() && in_database(es[j].0, database) && 0 <= q < es[j].1.len()
                ==> region_ids_of(db_regions(r, es, database)).contains(es[j].1[q]),
        forall|a: int, b: int| 0 <= a < b < db_regions(r, es, database).len() ==> db_regions(r, es, database)[a].region_id
            != db_regions(r, es, database)[b].region_id,
    decreases es.len(),
{
    if es.len() > 0 {
        let d = es.drop_last();
        let (k, ids) = es.last();
        let before = db_regions(r, d, database);
        assert forall|j: int| #![trigger d[j]] 0 <= j < d.len() implies t.contains_key(d[j].0) && t[d[j].0]
            == d[j].1 by {
            assert(d[j] == es[j]);
        }
        assert forall|a: int, b: int| 0 <= a < b < d.len() implies d[a].0 != d[b].0 by {
            assert(d[a] == es[a] && d[b] == es[b]);
        }
        lemma_db_regions(r, t, d, database);
        assert(es[es.len() - 1] == (k, ids));
        assert(t.contains_key(k) && t[k] == ids);
        if in_database(k, database) {
            let added = lookup_all(r, ids);
            assert(db_regions(r, es, database) == before + added);
            assert forall|q: int| 0 <= q < added.len() implies #[trigger] added[q].region_id == ids[q]
                && region_key(added[q]) == k && r.contains_key(ids[q].0) && r[ids[q].0] == added[q] by {
                assert(t[k][q] == ids[q]);
                assert(r.contains_key(ids[q].0));
                assert(r[ids[q].0].region_id.0 == ids[q].0);
            }
            assert forall|m: int| #![trigger db_regions(r, es, database)[m]] 0 <= m < db_regions(r, es, database).len() implies {
                &&& r.contains_key(db_regions(r, es, database)[m].region_id.0)
                &&& r[db_regions(r, es, database)[m].region_id.0] == db_regions(r, es, database)[m]
                &&& in_database(region_key(db_regions(r, es, database)[m]), database)
                &&& exists|j: int| 0 <= j < es.len() && #[trigger] es[j].0 == region_key(db_regions(r, es, database)[m])
            } by {
                if m < before.len() {
                    assert(db_regions(r, es, database)[m] == before[m]);
                    let j = choose|j: int| 0 <= j < d.len() && #[trigger] d[j].0 == region_key(before[m]);
                    assert(es[j] == d[j]);
                } else {
                    let q = m - before.len();
                    assert(db_regions(r, es, database)[m] == added[q]);
                    assert(es[es.len() - 1].0 == region_key(db_regions(r, es, database)[m]));
                }
            }
            assert forall|j: int, q: int| #![trigger es[j].1[q]]
                0 <= j < es.len() && in_database(es[j].0, database) && 0 <= q < es[j].1.len()
                    implies region_ids_of(db_regions(r, es, database)).contains(es[j].1[q]) by {
                if j < d.len() {
                    assert(d[j] == es[j]);
                    assert(d[j].1[q] == es[j].1[q]);
                    assert(region_ids_of(before).contains(d[j].1[q]));
                    let m = choose|m: int| 0 <= m < before.len() && region_ids_of(before)[m] == d[j].1[q];
                    assert(db_regions(r, es, database)[m] == before[m]);
                    assert(region_ids_of(db_regions(r, es, database))[m] == es[j].1[q]);
                } else {
                    assert(es[j] == (k, ids));
                    assert(added[q].region_id == ids[q]);
                    assert(db_regions(r, es, database)[before.len() + q] == added[q]);
                    assert(region_ids_of(db_regions(r, es, database))[before.len() + q] == es[j].1[q]);
                }
            }
            assert forall|a: int, b: int| 0 <= a < b < db_regions(r, es, database).len() implies db_regions(r, es, database)[a].region_id
                != db_regions(r, es, database)[b].region_id by {
                if b < before.len() {
                    assert(db_regions(r, es, database)[a] == before[a] && db_regions(r, es, database)[b] == before[b]);
                } else if a < before.len() {
                    let qb = b - before.len();
                    assert(db_regions(r, es, database)[a] == before[a]);
                    assert(db_regions(r, es, database)[b] == added[qb]);
                    let j = choose|j: int| 0 <= j < d.len() && #[trigger] d[j].0 == region_key(before[a]);
                    assert(d[j] == es[j]);
                    if db_regions(r, es, database)[a].region_id == db_regions(r, es, database)[b].region_id {
                        assert(region_key(before[a]) == k);
                    }
                } else {
                    let qa = a - before.len();
                    let qb = b - before.len();
                    assert(db_regions(r, es, database)[a] == added[qa] && db_regions(r, es, database)[b] == added[qb]);
                    assert(t[k][qa] != t[k][qb]);
                }
            }
        } else {
            assert(db_regions(r, es, database) == before);
            assert forall|m: int| #![trigger db_regions(r, es, database)[m]] 0 <= m < db_regions(r, es, database).len() implies exists|j: int|
                0 <= j < es.len() && #[trigger] es[j].0 == region_key(db_regions(r, es, database)[m]) by {
                let j = choose|j: int| 0 <= j < d.len() && #[trigger] d[j].0 == region_key(before[m]);
                assert(es[j] == d[j]);
            }
            assert forall|j: int, q: int| #![trigger es[j].1[q]]
                0 <= j < es.len() && in_database(es[j].0, database) && 0 <= q < es[j].1.len()
                    implies region_ids_of(db_regions(r, es, database)).contains(es[j].1[q]) by {
                assert(j < d.len());
                assert(d[j] == es[j]);
                assert(d[j].1[q] == es[j].1[q]);
                assert(region_ids_of(before).contains(d[j].1[q]));
            }
        }
    }
}

/// The characters of `database.`, the prefix of the database's table keys.
fn database_prefix_chars(database: &str) -> (p: Vec<char>)
    ensures
        p@ == database_prefix(database@),
{
    let mut p = str_to_chars(database);
    p.push('.');
    proof {
        reveal_strlit(".");
    }
    assert(p@ =~= database_prefix(database@));
    p
}

impl RegionManager {
    /// Get all regions for a database.
    ///
    /// Every recorded region whose table key starts with `database.` comes
    /// back once; the order follows the map and is not stated.
    pub fn get_database_regions(&self, database: &str) -> (out: Vec<RegionInfo>)
        requires
            self.wf(),
        ensures
            forall|m: int| #![trigger out@[m]] 0 <= m < out@.len() ==> {
                &&& self.records().contains_key(out@[m].region_id.0)
                &&& self.records()[out@[m].region_id.0] == out@[m]
                &&& in_database(region_key(out@[m]), database@)
            },
            forall|id: u64| #[trigger] self.records().contains_key(id) && in_database(
                region_key(self.records()[id]),
                database@,
            ) ==> exists|m: int| 0 <= m < out@.len() && #[trigger] out@[m].region_id.0 == id,
            forall|a: int, b: int| 0 <= a < b < out@.len() ==> out@[a].region_id != out@[b].region_id,
    {
        let prefix = database_prefix_chars(database);
        let entries = table_lists_entries(&self.table_regions);
        let ghost r = self.records();
        let ghost t = self.tables();
        let ghost es = entry_views(entries@);
        let mut out: Vec<RegionInfo> = Vec::new();
        let mut i: usize = 0;
        while i < entries.len()
            invariant
                self.wf(),
                r == self.records(),
                t == self.tables(),
                es == entry_views(entries@),
                i <= entries.len(),
                prefix@ == database_prefix(database@),
                forall|j: int| #![trigger entries@[j]] 0 <= j < entries@.len() ==> t.contains_key(
                    entries@[j].0@,
                ) && t[entries@[j].0@] == entries@[j].1@,
                out@ == db_regions(r, es.take(i as int), database@),
            decreases entries.len() - i,
        {
            let key_chars = str_to_chars(entries[i].0.as_str());
            let ghost k = entries@[i as int].0@;
            proof {
                assert(es.take(i + 1).drop_last() =~= es.take(i as int));
                assert(es.take(i + 1).last() == (k, entries@[i as int].1@));
            }
            if chars_have_prefix(&key_chars, &prefix) {
                let ghost ids = entries@[i as int].1@;
                proof {
                    assert forall|q: int| 0 <= q < ids.len() implies r.contains_key(
                        #[trigger] ids[q].0,
                    ) by {
                        assert(t[k][q] == ids[q]);
                    }
                }
                let mut part = self.lookup_regions(&entries[i].1);
                out.append(&mut part);
            }
            i = i + 1;
        }
        proof {
            assert(es.take(entries.len() as int) =~= es);
            assert forall|j: int| #![trigger es[j]] 0 <= j < es.len() implies t.contains_key(es[j].0)
                && t[es[j].0] == es[j].1 by {
                assert(es[j] == (entries@[j].0@, entries@[j].1@));
            }
            assert forall|a: int, b: int| 0 <= a < b < es.len() implies es[a].0 != es[b].0 by {
                assert(es[a].0 == entries@[a].0@ && es[b].0 == entries@[b].0@);
            }
            lemma_db_regions(r, t, es, database@);
            assert forall|id: u64| #[trigger] r.contains_key(id) && in_database(region_key(r[id]), database@)
                implies exists|m: int| 0 <= m < out@.len() && #[trigger] out@[m].region_id.0 == id by {
                assert(is_listed(r, t, id));
                let k = region_key(r[id]);
                let q = choose|q: int| 0 <= q < t[k].len() && t[k][q] == RegionId(id);
                let j = choose|j: int| 0 <= j < entries@.len() && #[trigger] entries@[j].0@ == k;
                assert(es[j].0 == k);
                assert(es[j].1[q] == RegionId(id));
                assert(region_ids_of(out@).contains(es[j].1[q]));
                let m = choose|m: int| 0 <= m < out@.len() && region_ids_of(out@)[m] == es[j].1[q];
                assert(out@[m].region_id.0 == id);
            }
        }
        out
    }

    /// Get all tables in a database.
    ///
    /// The names `t` for which `database.t` has regions, each once; the order
    /// follows the map and is not stated.
    pub fn get_database_tables(&self, database: &str) -> (names: Vec<String>)
        ensures
            forall|i: int| #![trigger names@[i]] 0 <= i < names@.len() ==> self.tables().contains_key(
                database_prefix(database@) + names@[i]@,
            ),
            forall|k: Seq<char>| #[trigger] self.tables().contains_key(k) && in_database(k, database@)
                ==> exists|i: int| 0 <= i < names@.len() && database_prefix(database@) + #[trigger] names@[i]@ == k,
            forall|a: int, b: int| 0 <= a < b < names@.len() ==> names@[a]@ != names@[b]@,
    {
        let prefix = database_prefix_chars(database);
        let entries = table_lists_entries(&self.table_regions);
        let ghost t = self.tables();
        let ghost p = database_prefix(database@);
        let mut names: Vec<String> = Vec::new();
        let mut i: usize = 0;
        while i < entries.len()
            invariant
                t == self.tables(),
                p == database_prefix(database@),
                i <= entries.len(),
                prefix@ == p,
                forall|j: int| #![trigger entries@[j]] 0 <= j < entries@.len() ==> t.contains_key(
                    entries@[j].0@,
                ),
                forall|a: int, b: int| 0 <= a < b < entries@.len() ==> entries@[a].0@ != entries@[b].0@,
                forall|m: int| #![trigger names@[m]] 0 <= m < names@.len() ==> exists|j: int|
                    0 <= j < i && #[trigger] entries@[j].0@ == p + names@[m]@,
                forall|j: int| #![trigger entries@[j]] 0 <= j < i && in_database(entries@[j].0@, database@)
                    ==> exists|m: int| 0 <= m < names@.len() && p + #[trigger] names@[m]@ == entries@[j].0@,
                forall|a: int, b: int| 0 <= a < b < names@.len() ==> names@[a]@ != names@[b]@,
            decreases entries.len() - i,
        {
            let key_chars = str_to_chars(entries[i].0.as_str());
            if chars_have_prefix(&key_chars, &prefix) {
                let rest = chars_from(&key_chars, prefix.len());
                let name = chars_to_string(&rest);
                let ghost before = names@;
                proof {
                    assert(p + name@ =~= entries@[i as int].0@);
                }
                names.push(name);
                proof {
                    assert forall|m: int| #![trigger names@[m]] 0 <= m < names@.len() implies exists|j: int|
                        0 <= j < i + 1 && #[trigger] entries@[j].0@ == p + names@[m]@ by {
                        if m < before.len() {
                            assert(names@[m] == before[m]);
                            let j = choose|j: int| 0 <= j < i && #[trigger] entries@[j].0@ == p + before[m]@;
                        } else {
                            assert(entries@[i as int].0@ == p + names@[m]@);
                        }
                    }
                    assert forall|j: int| #![trigger entries@[j]] 0 <= j < i + 1 && in_database(
                        entries@[j].0@,
                        database@,
                    ) implies exists|m: int| 0 <= m < names@.len() && p + #[trigger] names@[m]@
                        == entries@[j].0@ by {
                        if j < i {
                            let m = choose|m: int| 0 <= m < before.len() && p + #[trigger] before[m]@ == entries@[j].0@;
                            assert(names@[m] == before[m]);
                        } else {
                            assert(names@[before.len() as int] == name);
                        }
                    }
                    assert forall|a: int, b: int| 0 <= a < b < names@.len() implies names@[a]@
                        != names@[b]@ by {
                        if b < before.len() {
                            assert(names@[a] == before[a] && names@[b] == before[b]);
                        } else {
                            assert(names@[a] == before[a]);
                            let j = choose|j: int| 0 <= j < i && #[trigger] entries@[j].0@ == p + before[a]@;
                            if names@[a]@ == names@[b]@ {
                                assert(entries@[j].0@ == entries@[i as int].0@);
                            }
                        }
                    }
                }
            }
            i = i + 1;
        }
        proof {
            assert forall|k: Seq<char>| #[trigger] t.contains_key(k) && in_database(k, database@) implies exists|i: int|
                0 <= i < names@.len() && p + #[trigger] names@[i]@ == k by {
                let j = choose|j: int| 0 <= j < entries@.len() && #[trigger] entries@[j].0@ == k;
                assert(entries@[j].0@ == k);
            }
            assert forall|m: int| #![trigger names@[m]] 0 <= m < names@.len() implies t.contains_key(
                p + names@[m]@,
            ) by {
                let j = choose|j: int| 0 <= j < i && #[trigger] entries@[j].0@ == p + names@[m]@;
            }
        }
        names
    }
}


/// What creating a table's regions records reads back unchanged: looking up
/// the new table's id list in the new record map gives exactly the created
/// regions, in order, whatever was recorded before.
pub proof fn law_created_regions_read_back(records: Map<u64, RegionInfo>, base: u64, created: Seq<RegionInfo>)
    requires
        base + created.len() <= u64::MAX,
    ensures
        lookup_all(
            records.union_prefer_right(
                Map::new(|id: u64| base <= id < base + created.len(), |id: u64| created[id - base]),
            ),
            Seq::new(created.len(), |j: int| RegionId((base + j) as u64)),
        ) == created,
{
    let fresh = Map::new(|id: u64| base <= id < base + created.len(), |id: u64| created[id - base]);
    let ids = Seq::new(created.len(), |j: int| RegionId((base + j) as u64));
    let merged = records.union_prefer_right(fresh);
    assert forall|j: int| 0 <= j < created.len() implies #[trigger] lookup_all(merged, ids)[j] == created[j] by {
        let id = (base + j) as u64;
        assert(ids[j].0 == id);
        assert(fresh.contains_key(id));
    }
    assert(lookup_all(merged, ids) =~= created);
}

/// Reassigning a region and then reading it gives the region on its new
/// node with its epoch one higher, everything else of it unchanged; every
/// other region reads as before.
pub proof fn law_assign_then_get(records: Map<u64, RegionInfo>, id: u64, node: NodeId, other: u64)
    requires
        records.contains_key(id),
        records[id].epoch < u64::MAX,
    ensures
        ({
            let after = records.insert(id, reassigned(records[id], node));
            &&& after[id].node_id == node
            &&& after[id].epoch == records[id].epoch + 1
            &&& after[id].region_id == records[id].region_id
            &&& after[id].partition_range == records[id].partition_range
            &&& after[id].status == records[id].status
            &&& (other != id ==> after.contains_key(other) == records.contains_key(other))
            &&& (other != id && records.contains_key(other) ==> after[other] == records[other])
        }),
{
}


/// How many of the first `count` regions round-robin puts on the `i`-th of
/// `n` nodes.
pub open spec fn regions_on(count: nat, n: nat, i: nat) -> nat
    decreases count,
{
    if count == 0 {
        0
    } else {
        regions_on((count - 1) as nat, n, i) + (if (count - 1) % (n as int) == i { 1nat } else { 0nat })
    }
}

/// Round-robin spreads regions evenly: each node gets the quotient of the
/// count by the number of nodes, and the first nodes one more each, as many
/// as the remainder.
pub proof fn law_round_robin_spreads_evenly(count: nat, n: nat, i: nat)
    requires
        n > 0,
        i < n,
    ensures
        regions_on(count, n, i) == count / n + (if i < count % n { 1nat } else { 0nat }),
    decreases count,
{
    if count == 0 {
        vstd::arithmetic::div_mod::lemma_fundamental_div_mod_converse(0, n as int, 0, 0);
    } else {
        let c = (count - 1) as nat;
        law_round_robin_spreads_evenly(c, n, i);
        let q = c / n;
        let r = c % n;
        vstd::arithmetic::div_mod::lemma_fundamental_div_mod(c as int, n as int);
        assert(0 <= r < n);
        if r + 1 < n {
            assert(count == q * n + (r + 1)) by (nonlinear_arith)
                requires
                    c == n * q + r,
                    count == c + 1,
            ;
            vstd::arithmetic::div_mod::lemma_fundamental_div_mod_converse(count as int, n as int, q as int, (r + 1) as int);
        } else {
            assert(count == (q + 1) * n + 0) by (nonlinear_arith)
                requires
                    c == n * q + r,
                    r + 1 == n,
                    count == c + 1,
            ;
            vstd::arithmetic::div_mod::lemma_fundamental_div_mod_converse(count as int, n as int, (q + 1) as int, 0);
        }
    }
}


/// A status update reads back: the region has the new status and keeps
/// its node, epoch and range; every other region reads as before.
pub proof fn law_status_update_then_get(records: Map<u64, RegionInfo>, id: u64, status: RegionStatus, other: u64)
    requires
        records.contains_key(id),
    ensures
        ({
            let after = records.insert(id, with_status(records[id], status));
            &&& after[id].status == status
            &&& after[id].node_id == records[id].node_id
            &&& after[id].epoch == records[id].epoch
            &&& after[id].partition_range == records[id].partition_range
            &&& after.dom() == records.dom()
            &&& (other != id && records.contains_key(other) ==> after[other] == records[other])
        }),
{
    let after = records.insert(id, with_status(records[id], status));
    assert(after.dom() =~= records.dom());
}

} // verus!
