//! A package as the linkage resolver sees it: its manifest, where it lives,
//! its pinned direct dependencies and its publications, per environment.

use crate::keyed::{find, has_key, lookup};
use vstd::prelude::*;

verus! {

/// The name of a deployment target, such as a network.
pub type EnvironmentName = String;

/// The identifier of the chain behind an environment.
pub type EnvironmentID = String;

/// The name by which a package, or one of its dependencies, is known in a
/// manifest.
pub type PackageName = String;

/// The identity that all versions of a published package share within one
/// environment.
pub type OriginalID = u64;

/// The place on chain of one published instance of a package.
pub type PublishedAddress = u64;

/// A dependency on a directory relative to the depending package.
#[derive(Debug, PartialEq, Eq)]
pub struct LocalDepInfo {
    pub local: String,
}

/// Where a pinned dependency comes from, as a lockfile records it.
#[derive(Debug, PartialEq, Eq)]
pub enum LockfileDependencyInfo {
    Local(LocalDepInfo),
}

impl Clone for LocalDepInfo {
    fn clone(&self) -> (copy: Self)
        ensures
            copy == *self,
    {
        LocalDepInfo { local: self.local.clone() }
    }
}

impl Clone for LockfileDependencyInfo {
    fn clone(&self) -> (copy: Self)
        ensures
            copy == *self,
    {
        match self {
            LockfileDependencyInfo::Local(info) => LockfileDependencyInfo::Local(info.clone()),
        }
    }
}

/// A direct dependency of a package, pinned to one source.
#[derive(Debug, PartialEq, Eq)]
pub struct PinnedDependencyInfo {
    pub source: LockfileDependencyInfo,
    pub is_override: bool,
}

impl Clone for PinnedDependencyInfo {
    fn clone(&self) -> (copy: Self)
        ensures
            copy == *self,
    {
        PinnedDependencyInfo { source: self.source.clone(), is_override: self.is_override }
    }
}

impl PinnedDependencyInfo {
    /// Whether the manifest marks this dependency as an override.
    pub fn is_override(&self) -> (flag: bool)
        ensures
            flag == self.is_override,
    {
        self.is_override
    }
}

/// One published instance of a package: the chain it is on, the identity it
/// shares with its other versions, and its own address.
#[derive(Debug, PartialEq, Eq)]
pub struct Publication {
    pub chain_id: EnvironmentID,
    pub original_id: OriginalID,
    pub published_at: PublishedAddress,
}

impl Clone for Publication {
    fn clone(&self) -> (copy: Self)
        ensures
            copy == *self,
    {
        Publication {
            chain_id: self.chain_id.clone(),
            original_id: self.original_id,
            published_at: self.published_at,
        }
    }
}

/// A publication together with the environment it was recorded for.
#[derive(Debug, PartialEq, Eq)]
pub struct PublishInformation {
    pub environment: EnvironmentName,
    pub publication: Publication,
}

/// What the resolver reads of a manifest: the package's name and the
/// environments it declares, each with its chain.
#[derive(Debug, PartialEq, Eq)]
pub struct Manifest {
    pub package_name: PackageName,
    pub environments: Vec<(EnvironmentName, EnvironmentID)>,
}

/// The directory of a package.
#[derive(Debug, PartialEq, Eq)]
pub struct PackagePath {
    pub path: String,
}

/// Why a package could not answer a question.
#[derive(Debug, PartialEq, Eq)]
pub enum PackageError {
    /// The manifest of `package` does not declare `environment`.
    UndeclaredEnvironment { package: PackageName, environment: EnvironmentName },
}

pub type PackageResult<T> = Result<T, PackageError>;

/// The direct dependencies of a package in one environment, by name.
pub type Dependencies = Vec<(PackageName, PinnedDependencyInfo)>;

#[derive(Debug)]
pub struct Package {
    manifest: Manifest,
    /// The directory that holds the package.
    path: PackagePath,
    /// The publication of the package per environment.
    publish_data: Vec<(EnvironmentName, PublishInformation)>,
    /// The way this package is written down as a dependency.
    source: LockfileDependencyInfo,
    /// The pinned direct dependencies of the package per environment.
    deps: Vec<(EnvironmentName, Dependencies)>,
}

/// The entry that stands in a package's publish data for one publication
/// that a lockfile records under `environment`. It is keyed by the chain.
pub open spec fn publish_entry(recorded: (EnvironmentName, Publication)) -> (
    EnvironmentID,
    PublishInformation,
) {
    (
        recorded.1.chain_id,
        PublishInformation { environment: recorded.0, publication: recorded.1 },
    )
}

/// A package as a value: its parts, with each list as a sequence.
pub struct PackageView {
    pub manifest: Manifest,
    pub path: PackagePath,
    pub publish_data: Seq<(EnvironmentName, PublishInformation)>,
    pub source: LockfileDependencyInfo,
    pub deps: Seq<(EnvironmentName, Dependencies)>,
}

impl View for Package {
    type V = PackageView;

    closed spec fn view(&self) -> PackageView {
        PackageView {
            manifest: self.manifest,
            path: self.path,
            publish_data: self.publish_data@,
            source: self.source,
            deps: self.deps@,
        }
    }
}

impl Package {
    /// Whether the manifest declares the environment `env`.
    pub open spec fn declares(&self, env: Seq<char>) -> bool {
        has_key(self@.manifest.environments@, env)
    }

    /// The publication of the package in `env`, if it is published there.
    pub open spec fn spec_publication(&self, env: Seq<char>) -> Option<Publication> {
        match lookup(self@.publish_data, env) {
            Some(info) => Some(info.publication),
            None => None,
        }
    }

    /// The pinned dependencies recorded for `env`; none where nothing is
    /// recorded for it.
    pub open spec fn spec_direct_deps(&self, env: Seq<char>) -> Seq<
        (PackageName, PinnedDependencyInfo),
    > {
        match lookup(self@.deps, env) {
            Some(deps) => deps@,
            None => Seq::empty(),
        }
    }

    /// Whether, in `env`, the package has a direct dependency called `name`
    /// that its manifest marks as an override.
    pub open spec fn overrides_dependency(&self, env: Seq<char>, name: Seq<char>) -> bool {
        lookup(self.spec_direct_deps(env), name) matches Some(dep) && dep.is_override
    }

    /// A package made of its parts. In each list a later entry shadows the
    /// earlier entries with the same key.
    pub fn new(
        manifest: Manifest,
        path: PackagePath,
        publish_data: Vec<(EnvironmentName, PublishInformation)>,
        source: LockfileDependencyInfo,
        deps: Vec<(EnvironmentName, Dependencies)>,
    ) -> (package: Self)
        ensures
            package@ == (PackageView {
                manifest,
                path,
                publish_data: publish_data@,
                source,
                deps: deps@,
            }),
    {
        Package { manifest, path, publish_data, source, deps }
    }

    /// Turns the publications that a lockfile records, by environment, into
    /// the publish data of a package: one entry each, in the same order,
    /// keyed by the chain of the publication. Without a lockfile there are
    /// none.
    pub fn load_published_info_from_lockfile(
        published: Option<&Vec<(EnvironmentName, Publication)>>,
    ) -> (publish_data: Vec<(EnvironmentID, PublishInformation)>)
        ensures
            publish_data@ == match published {
                Some(recorded) => recorded@.map_values(
                    |entry: (EnvironmentName, Publication)| publish_entry(entry),
                ),
                None => Seq::empty(),
            },
    {
        let mut publish_data: Vec<(EnvironmentID, PublishInformation)> = Vec::new();
        if let Some(recorded) = published {
            let mut i: usize = 0;
            while i < recorded.len()
                invariant
                    i <= recorded.len(),
                    publish_data@ == recorded@.take(i as int).map_values(
                        |entry: (EnvironmentName, Publication)| publish_entry(entry),
                    ),
                decreases recorded.len() - i,
            {
                let environment = recorded[i].0.clone();
                let publication = recorded[i].1.clone();
                let chain_id = publication.chain_id.clone();
                publish_data.push((chain_id, PublishInformation { environment, publication }));
                i = i + 1;
            }
        }
        publish_data
    }

    /// The directory that holds the package.
    pub fn path(&self) -> (path: &PackagePath)
        ensures
            *path == self@.path,
    {
        &self.path
    }

    /// The name that the manifest gives the package.
    pub fn name(&self) -> (name: &PackageName)
        ensures
            *name == self@.manifest.package_name,
    {
        &self.manifest.package_name
    }

    /// The manifest of the package.
    pub fn manifest(&self) -> (manifest: &Manifest)
        ensures
            *manifest == self@.manifest,
    {
        &self.manifest
    }

    /// A dependency that points to this package.
    pub fn dep_for_self(&self) -> (source: &LockfileDependencyInfo)
        ensures
            *source == self@.source,
    {
        &self.source
    }

    /// The publication of the package in `env`, if it is published there.
    pub fn publication(&self, env: &EnvironmentName) -> (publication: Option<&Publication>)
        ensures
            match publication {
                Some(found) => self.spec_publication(env@) == Some(*found),
                None => self.spec_publication(env@) is None,
            },
    {
        match find(&self.publish_data, env) {
            Some(info) => Some(&info.publication),
            None => None,
        }
    }

    /// The pinned direct dependencies of the package in `env`. Fails where the
    /// manifest does not declare `env`.
    pub fn direct_deps(&self, env: &EnvironmentName) -> (deps: PackageResult<Dependencies>)
        ensures
            match deps {
                Ok(list) => self.declares(env@) && list@ == self.spec_direct_deps(env@),
                Err(error) => !self.declares(env@) && error == (PackageError::UndeclaredEnvironment {
                    package: self@.manifest.package_name,
                    environment: *env,
                }),
            },
    {
        if find(&self.manifest.environments, env).is_none() {
            return Err(
                PackageError::UndeclaredEnvironment {
                    package: self.manifest.package_name.clone(),
                    environment: env.clone(),
                },
            );
        }
        let mut list: Dependencies = Vec::new();
        if let Some(recorded) = find(&self.deps, env) {
            let mut i: usize = 0;
            while i < recorded.len()
                invariant
                    i <= recorded.len(),
                    list@ == recorded@.take(i as int),
                decreases recorded.len() - i,
            {
                list.push((recorded[i].0.clone(), recorded[i].1.clone()));
                i = i + 1;
            }
        }
        Ok(list)
    }
}

} // verus!
