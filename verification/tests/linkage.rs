use move_package_alt::graph::PackageGraph;
use move_package_alt::linkage::{LinkageError, LinkageTable};
use move_package_alt::package::{
    LocalDepInfo, LockfileDependencyInfo, Manifest, Package, PackagePath, PinnedDependencyInfo,
    Publication, PublishInformation,
};
use move_package_alt::table::table_entries;
use std::collections::BTreeMap;

const MAINNET: &str = "mainnet";
const TESTNET: &str = "testnet";

fn env(name: &str) -> String {
    name.to_string()
}

fn source() -> LockfileDependencyInfo {
    LockfileDependencyInfo::Local(LocalDepInfo { local: ".".to_string() })
}

fn published(environment: &str, original_id: u64, published_at: u64) -> (String, PublishInformation) {
    (
        environment.to_string(),
        PublishInformation {
            environment: environment.to_string(),
            publication: Publication {
                chain_id: environment.to_string(),
                original_id,
                published_at,
            },
        },
    )
}

/// A package that declares mainnet and testnet, with the given publications
/// and, on mainnet, the given dependencies, each marked as an override or not.
fn package(name: &str, publications: Vec<(String, PublishInformation)>, deps: &[(&str, bool)]) -> Package {
    let deps = deps
        .iter()
        .map(|(dep, is_override)| {
            (dep.to_string(), PinnedDependencyInfo { source: source(), is_override: *is_override })
        })
        .collect();
    Package::new(
        Manifest {
            package_name: name.to_string(),
            environments: vec![(env(MAINNET), "m".to_string()), (env(TESTNET), "t".to_string())],
        },
        PackagePath { path: name.to_string() },
        publications,
        source(),
        vec![(env(MAINNET), deps)],
    )
}

fn table(entries: &[(u64, u32)]) -> LinkageTable {
    entries.iter().copied().collect()
}

/// root(0) -> a(1), root -> b(2), a -> l1(3), b -> l2(4), with l1 and l2
/// sharing the identity 9. `root_deps` are the dependencies of the root.
fn diamond(l1_address: u64, l2_address: u64, root_deps: &[(&str, bool)]) -> PackageGraph {
    let mut graph = PackageGraph::new(package("root", vec![], root_deps));
    graph.add_package(package("a", vec![published(MAINNET, 1, 10)], &[("l", false)]));
    graph.add_package(package("b", vec![published(MAINNET, 2, 20)], &[("l", false)]));
    graph.add_package(package("l1", vec![published(MAINNET, 9, l1_address)], &[]));
    graph.add_package(package("l2", vec![published(MAINNET, 9, l2_address)], &[]));
    assert!(graph.add_dependency(0, 1, "a".to_string()));
    assert!(graph.add_dependency(0, 2, "b".to_string()));
    assert!(graph.add_dependency(1, 3, "l".to_string()));
    assert!(graph.add_dependency(2, 4, "l".to_string()));
    graph
}

/// The finished tables of a and b in `diamond`, had each the node below it
/// in its table.
fn diamond_tables() -> BTreeMap<u32, LinkageTable> {
    let mut tables = BTreeMap::new();
    tables.insert(1, table(&[(9, 3)]));
    tables.insert(2, table(&[(9, 4)]));
    tables
}

#[test]
fn a_graph_without_a_cycle_resolves() {
    let mut graph = PackageGraph::new(package("root", vec![], &[("a", false)]));
    graph.add_package(package("a", vec![published(MAINNET, 1, 10)], &[("b", false)]));
    graph.add_package(package("b", vec![published(MAINNET, 2, 20)], &[]));
    graph.add_dependency(0, 1, "a".to_string());
    graph.add_dependency(1, 2, "b".to_string());
    assert!(graph.linkage(&env(MAINNET)).is_ok());
}

#[test]
fn a_cycle_is_reported_with_a_node_on_it() {
    let mut graph = PackageGraph::new(package("root", vec![], &[("a", false)]));
    graph.add_package(package("a", vec![], &[("b", false)]));
    graph.add_package(package("b", vec![], &[("a", false)]));
    graph.add_dependency(0, 1, "a".to_string());
    graph.add_dependency(1, 2, "b".to_string());
    graph.add_dependency(2, 1, "a".to_string());
    match graph.linkage(&env(MAINNET)) {
        Err(LinkageError::CyclicDependencies(node)) => assert!(node == 1 || node == 2),
        other => panic!("expected a cycle, got {:?}", other),
    }
}

#[test]
fn a_package_that_depends_on_itself_is_a_cycle() {
    let mut graph = PackageGraph::new(package("root", vec![], &[("root", false)]));
    graph.add_dependency(0, 0, "root".to_string());
    assert_eq!(graph.linkage(&env(MAINNET)), Err(LinkageError::CyclicDependencies(0)));
}

#[test]
fn a_cycle_is_reported_before_anything_else() {
    let mut graph = PackageGraph::new(package("root", vec![], &[]));
    graph.add_dependency(0, 0, "root".to_string());
    assert_eq!(graph.linkage(&env("devnet")), Err(LinkageError::CyclicDependencies(0)));
}

#[test]
fn resolution_is_repeatable() {
    let graph = diamond(30, 40, &[("a", false), ("b", false)]);
    let first = graph.linkage(&env(MAINNET));
    let second = graph.linkage(&env(MAINNET));
    assert!(first.is_ok());
    assert_eq!(first, second);
    let failing = graph.linkage(&env("devnet"));
    assert_eq!(failing, graph.linkage(&env("devnet")));
}

#[test]
fn a_diamond_on_one_node_resolves() {
    // root -> a, root -> b, a -> l, b -> l
    let mut graph = PackageGraph::new(package("root", vec![], &[("a", false), ("b", false)]));
    graph.add_package(package("a", vec![published(MAINNET, 1, 10)], &[("l", false)]));
    graph.add_package(package("b", vec![published(MAINNET, 2, 20)], &[("l", false)]));
    graph.add_package(package("l", vec![published(MAINNET, 9, 30)], &[]));
    graph.add_dependency(0, 1, "a".to_string());
    graph.add_dependency(0, 2, "b".to_string());
    graph.add_dependency(1, 3, "l".to_string());
    graph.add_dependency(2, 3, "l".to_string());
    assert!(graph.linkage(&env(MAINNET)).is_ok());
}

#[test]
fn a_node_reached_on_two_paths_is_kept_once() {
    let graph = diamond(30, 30, &[("a", false), ("b", false)]);
    let mut tables = BTreeMap::new();
    tables.insert(1, table(&[(9, 3)]));
    tables.insert(2, table(&[(9, 3)]));
    let linked = graph.link_node(&env(MAINNET), &env(MAINNET), 0, &tables);
    assert_eq!(linked, Ok(table(&[(9, 3)])));
}

#[test]
fn two_addresses_for_one_identity_are_several_implementations() {
    let graph = diamond(30, 40, &[("a", false), ("b", false)]);
    let linked = graph.link_node(&env(MAINNET), &env(MAINNET), 0, &diamond_tables());
    // The edge to b is the newer one, so its table is read first.
    assert_eq!(
        linked,
        Err(LinkageError::MultipleImplementations { root: 0, node1: 4, node2: 3 })
    );
}

#[test]
fn one_address_for_two_nodes_is_inconsistent() {
    let graph = diamond(30, 30, &[("a", false), ("b", false)]);
    let linked = graph.link_node(&env(MAINNET), &env(MAINNET), 0, &diamond_tables());
    assert_eq!(linked, Err(LinkageError::InconsistentLinkage { root: 0, node1: 4, node2: 3 }));
}

#[test]
fn an_override_settles_the_conflict() {
    let mut graph = diamond(30, 40, &[("a", false), ("b", false), ("l", true)]);
    assert!(graph.add_dependency(0, 3, "l".to_string()));
    assert_eq!(graph.overrides(&env(MAINNET), 0), Ok(table(&[(9, 3)])));
    let mut tables = diamond_tables();
    tables.insert(3, LinkageTable::new());
    let linked = graph.link_node(&env(MAINNET), &env(MAINNET), 0, &tables);
    assert_eq!(linked, Ok(table(&[(9, 3)])));
}

#[test]
fn an_override_wins_whichever_node_came_first() {
    let graph = diamond(30, 40, &[]);
    let overrides = table(&[(9, 4)]);
    let address_env = env(MAINNET);
    assert_eq!(
        graph.merge_entries(&address_env, 0, &overrides, &vec![(9, 3), (9, 4)]),
        Ok(table(&[(9, 4)]))
    );
    assert_eq!(
        graph.merge_entries(&address_env, 0, &overrides, &vec![(9, 4), (9, 3)]),
        Ok(table(&[(9, 4)]))
    );
    // Equal addresses are not looked at either.
    let same = diamond(30, 30, &[]);
    assert_eq!(
        same.merge_entries(&address_env, 0, &overrides, &vec![(9, 3), (9, 4), (9, 3)]),
        Ok(table(&[(9, 4)]))
    );
}

#[test]
fn an_override_of_one_edge_does_not_cover_another_identity() {
    // The root overrides b, whose identity is 2; the conflict is on 9.
    let graph = diamond(30, 40, &[("a", false), ("b", true)]);
    assert_eq!(graph.overrides(&env(MAINNET), 0), Ok(table(&[(2, 2)])));
    let linked = graph.link_node(&env(MAINNET), &env(MAINNET), 0, &diamond_tables());
    assert_eq!(
        linked,
        Err(LinkageError::MultipleImplementations { root: 0, node1: 4, node2: 3 })
    );
}

#[test]
fn an_override_of_another_node_does_not_settle_the_conflict() {
    // a overrides its dependency l; the conflict arises at the root.
    let mut graph = PackageGraph::new(package("root", vec![], &[("a", false), ("b", false)]));
    graph.add_package(package("a", vec![published(MAINNET, 1, 10)], &[("l", true)]));
    graph.add_package(package("b", vec![published(MAINNET, 2, 20)], &[("l", false)]));
    graph.add_package(package("l1", vec![published(MAINNET, 9, 30)], &[]));
    graph.add_package(package("l2", vec![published(MAINNET, 9, 40)], &[]));
    graph.add_dependency(0, 1, "a".to_string());
    graph.add_dependency(0, 2, "b".to_string());
    graph.add_dependency(1, 3, "l".to_string());
    graph.add_dependency(2, 4, "l".to_string());
    assert_eq!(graph.overrides(&env(MAINNET), 1), Ok(table(&[(9, 3)])));
    assert_eq!(graph.overrides(&env(MAINNET), 0), Ok(table(&[])));
    let linked = graph.link_node(&env(MAINNET), &env(MAINNET), 0, &diamond_tables());
    assert_eq!(
        linked,
        Err(LinkageError::MultipleImplementations { root: 0, node1: 4, node2: 3 })
    );
}

#[test]
fn a_leaf_has_an_empty_table() {
    let graph = PackageGraph::new(package("leaf", vec![published(MAINNET, 1, 10)], &[]));
    assert_eq!(graph.linkage(&env(MAINNET)), Ok(LinkageTable::new()));
    let diamond = diamond(30, 40, &[]);
    assert_eq!(
        diamond.link_node(&env(MAINNET), &env(MAINNET), 3, &diamond_tables()),
        Ok(LinkageTable::new())
    );
}

#[test]
fn no_node_enters_a_table() {
    // Tables are merged from the tables of the dependencies alone, so even
    // two nodes with one identity at different addresses meet in no table.
    let graph = diamond(30, 40, &[("a", false), ("b", false)]);
    assert_eq!(graph.linkage(&env(MAINNET)), Ok(LinkageTable::new()));
    assert_eq!(graph.resolve_in_order(&env(MAINNET), &env(MAINNET), &vec![0, 2, 4, 1, 3]), Ok(LinkageTable::new()));
}

#[test]
fn the_first_entry_of_an_identity_is_taken() {
    let graph = diamond(30, 40, &[]);
    let merged = graph.merge_entries(&env(MAINNET), 0, &table(&[]), &vec![(9, 3), (1, 1), (2, 2)]);
    assert_eq!(merged, Ok(table(&[(1, 1), (2, 2), (9, 3)])));
    assert_eq!(graph.merge_entries(&env(MAINNET), 0, &table(&[]), &vec![]), Ok(table(&[])));
}

#[test]
fn the_first_conflict_ends_the_merge() {
    let mut graph = diamond(30, 40, &[]);
    graph.add_package(package("a2", vec![published(MAINNET, 1, 10)], &[]));
    let merged = graph.merge_entries(
        &env(MAINNET),
        2,
        &table(&[]),
        &vec![(1, 1), (9, 3), (1, 5), (9, 4)],
    );
    assert_eq!(merged, Err(LinkageError::InconsistentLinkage { root: 2, node1: 1, node2: 5 }));
}

#[test]
fn a_conflict_with_an_unpublished_node_is_reported() {
    let mut graph = PackageGraph::new(package("root", vec![], &[]));
    graph.add_package(package("x", vec![published(TESTNET, 9, 30)], &[]));
    graph.add_package(package("y", vec![published(MAINNET, 9, 40)], &[]));
    let mainnet = env(MAINNET);
    assert_eq!(
        graph.conflict_between(&mainnet, 0, 1, 2),
        LinkageError::UnpublishedConflict { root: 0, node: 1 }
    );
    assert_eq!(
        graph.conflict_between(&mainnet, 0, 2, 1),
        LinkageError::UnpublishedConflict { root: 0, node: 1 }
    );
    assert_eq!(
        graph.conflict_between(&mainnet, 0, 2, 7),
        LinkageError::UnpublishedConflict { root: 0, node: 7 }
    );
    assert_eq!(
        graph.merge_entries(&mainnet, 0, &table(&[]), &vec![(9, 1), (9, 2)]),
        Err(LinkageError::UnpublishedConflict { root: 0, node: 1 })
    );
}

#[test]
fn addresses_are_compared_in_the_given_environment() {
    let mut graph = PackageGraph::new(package("root", vec![], &[]));
    graph.add_package(package("x", vec![published(MAINNET, 9, 30), published(TESTNET, 9, 50)], &[]));
    graph.add_package(package("y", vec![published(MAINNET, 9, 40), published(TESTNET, 9, 50)], &[]));
    assert_eq!(graph.published_at(1, &env(MAINNET)), Some(30));
    assert_eq!(graph.published_at(2, &env(TESTNET)), Some(50));
    assert_eq!(graph.published_at(0, &env(MAINNET)), None);
    assert_eq!(graph.published_at(3, &env(MAINNET)), None);
    assert_eq!(
        graph.conflict_between(&env(MAINNET), 0, 1, 2),
        LinkageError::MultipleImplementations { root: 0, node1: 1, node2: 2 }
    );
    assert_eq!(
        graph.conflict_between(&env(TESTNET), 0, 1, 2),
        LinkageError::InconsistentLinkage { root: 0, node1: 1, node2: 2 }
    );
    let mut tables = BTreeMap::new();
    tables.insert(1, table(&[(9, 1)]));
    tables.insert(2, table(&[(9, 2)]));
    let mut above = PackageGraph::new(package("root", vec![], &[("x", false), ("y", false)]));
    above.add_package(package("x", vec![published(MAINNET, 9, 30), published(TESTNET, 9, 50)], &[]));
    above.add_package(package("y", vec![published(MAINNET, 9, 40), published(TESTNET, 9, 50)], &[]));
    above.add_dependency(0, 1, "x".to_string());
    above.add_dependency(0, 2, "y".to_string());
    assert_eq!(
        above.link_node(&env(MAINNET), &env(TESTNET), 0, &tables),
        Err(LinkageError::InconsistentLinkage { root: 0, node1: 2, node2: 1 })
    );
    assert!(above.linkage_with(&env(MAINNET), &env(TESTNET)).is_ok());
}

#[test]
fn overrides_hold_the_marked_dependencies_only() {
    let mut graph = PackageGraph::new(package("root", vec![], &[("a", true), ("b", false), ("c", true)]));
    graph.add_package(package("a", vec![published(MAINNET, 1, 10)], &[]));
    graph.add_package(package("b", vec![published(MAINNET, 2, 20)], &[]));
    graph.add_package(package("c", vec![published(MAINNET, 3, 30)], &[]));
    graph.add_dependency(0, 1, "a".to_string());
    graph.add_dependency(0, 2, "b".to_string());
    graph.add_dependency(0, 3, "c".to_string());
    assert_eq!(graph.overrides(&env(MAINNET), 0), Ok(table(&[(1, 1), (3, 3)])));
    assert_eq!(graph.overrides(&env(MAINNET), 1), Ok(table(&[])));
    // On testnet the root has no dependencies recorded, so nothing is marked.
    assert_eq!(graph.overrides(&env(TESTNET), 0), Ok(table(&[])));
}

#[test]
fn of_two_overrides_of_one_identity_the_older_edge_stays() {
    let mut graph = PackageGraph::new(package("root", vec![], &[("x", true), ("y", true)]));
    graph.add_package(package("x", vec![published(MAINNET, 9, 30)], &[]));
    graph.add_package(package("y", vec![published(MAINNET, 9, 40)], &[]));
    graph.add_dependency(0, 1, "x".to_string());
    graph.add_dependency(0, 2, "y".to_string());
    // Edges are read newest first, and a later one replaces an earlier one.
    assert_eq!(graph.overrides(&env(MAINNET), 0), Ok(table(&[(9, 1)])));
}

#[test]
fn an_undeclared_environment_is_an_error() {
    let mut graph = PackageGraph::new(package("root", vec![], &[("a", false)]));
    graph.add_package(package("a", vec![], &[]));
    graph.add_dependency(0, 1, "a".to_string());
    assert_eq!(
        graph.overrides(&env("devnet"), 0),
        Err(LinkageError::UndeclaredEnvironment { node: 0 })
    );
    // Dependencies are visited first.
    assert_eq!(
        graph.linkage(&env("devnet")),
        Err(LinkageError::UndeclaredEnvironment { node: 1 })
    );
}

#[test]
fn an_unpublished_override_is_an_error() {
    let mut graph = PackageGraph::new(package("root", vec![], &[("a", true), ("b", true)]));
    graph.add_package(package("a", vec![published(TESTNET, 1, 10)], &[]));
    graph.add_package(package("b", vec![], &[]));
    graph.add_dependency(0, 1, "a".to_string());
    graph.add_dependency(0, 2, "b".to_string());
    // The edge to b is the newer one and is read first.
    assert_eq!(
        graph.overrides(&env(MAINNET), 0),
        Err(LinkageError::UnpublishedOverride { node: 0, dependency: 2 })
    );
    assert_eq!(
        graph.linkage(&env(MAINNET)),
        Err(LinkageError::UnpublishedOverride { node: 0, dependency: 2 })
    );
}

#[test]
fn entries_come_by_rising_identity() {
    let mut entries = LinkageTable::new();
    entries.insert(5, 50);
    entries.insert(1, 10);
    entries.insert(3, 30);
    assert_eq!(table_entries(&entries), vec![(1, 10), (3, 30), (5, 50)]);
    assert_eq!(table_entries(&LinkageTable::new()), Vec::new());
}

#[test]
fn tables_are_gathered_in_the_order_of_the_edges() {
    let graph = diamond(30, 40, &[]);
    let mut tables = BTreeMap::new();
    tables.insert(1, table(&[(7, 3), (2, 1)]));
    tables.insert(2, table(&[(9, 4), (1, 2)]));
    tables.insert(3, table(&[(100, 0)]));
    assert_eq!(graph.gather(0, &tables), vec![(1, 2), (9, 4), (2, 1), (7, 3)]);
    assert_eq!(graph.gather(3, &tables), Vec::new());
}

#[test]
fn resolution_in_a_given_order_returns_the_table_of_its_first_node() {
    let mut graph = PackageGraph::new(package("root", vec![], &[("a", false)]));
    graph.add_package(package("a", vec![published(MAINNET, 1, 10)], &[]));
    graph.add_dependency(0, 1, "a".to_string());
    assert_eq!(
        graph.resolve_in_order(&env(MAINNET), &env(MAINNET), &vec![0, 1]),
        Ok(LinkageTable::new())
    );
    assert_eq!(
        graph.resolve_in_order(&env("devnet"), &env(MAINNET), &vec![0, 1]),
        Err(LinkageError::UndeclaredEnvironment { node: 1 })
    );
}

#[test]
fn entries_that_disagree_fail_in_either_order() {
    let graph = diamond(30, 40, &[]);
    let mainnet = env(MAINNET);
    assert_eq!(
        graph.merge_entries(&mainnet, 0, &table(&[]), &vec![(9, 3), (9, 4)]),
        Err(LinkageError::MultipleImplementations { root: 0, node1: 3, node2: 4 })
    );
    assert_eq!(
        graph.merge_entries(&mainnet, 0, &table(&[]), &vec![(9, 4), (9, 3)]),
        Err(LinkageError::MultipleImplementations { root: 0, node1: 4, node2: 3 })
    );
    // An override for another identity does not help.
    assert_eq!(
        graph.merge_entries(&mainnet, 0, &table(&[(1, 1)]), &vec![(9, 4), (1, 2), (9, 3)]),
        Err(LinkageError::MultipleImplementations { root: 0, node1: 4, node2: 3 })
    );
}

#[test]
fn entries_that_agree_merge_in_any_order() {
    let graph = diamond(30, 40, &[]);
    let mainnet = env(MAINNET);
    let expected = Ok(table(&[(1, 1), (9, 3)]));
    assert_eq!(graph.merge_entries(&mainnet, 0, &table(&[]), &vec![(9, 3), (1, 1), (9, 3)]), expected);
    assert_eq!(graph.merge_entries(&mainnet, 0, &table(&[]), &vec![(1, 1), (9, 3), (9, 3)]), expected);
    // An override is not consulted while the entries agree.
    assert_eq!(graph.merge_entries(&mainnet, 0, &table(&[(9, 4)]), &vec![(9, 3), (9, 3)]), Ok(table(&[(9, 3)])));
}
