//! The dependency-usage report: for every package, how many uses of
//! unchecked code were found, split by kind and by whether the build
//! reaches them.

use vstd::prelude::*;

verus! {

#[derive(Debug)]
pub struct Report {
    pub packages: Vec<Package>,
}

#[derive(Debug)]
pub struct Package {
    pub package: PackagePackage,
    pub unsafety: PackageUnsafety,
}

#[derive(Debug)]
pub struct PackagePackage {
    pub id: PackagePackageId,
    pub dependencies: Vec<PackagePackage>,
    pub dev_dependencies: Vec<PackagePackage>,
    pub build_dependencies: Vec<PackagePackage>,
}

#[derive(Debug, Clone)]
pub struct PackagePackageId {
    pub name: String,
    pub version: String,
}

#[derive(Debug, Clone)]
pub struct PackageUnsafety {
    pub used: PackageUnsafetyCounts,
    pub unused: PackageUnsafetyCounts,
    pub forbids_unsafe: bool,
}

#[derive(Debug, Clone)]
pub struct PackageUnsafetyCounts {
    pub functions: PackageUnsafetyCount,
    pub exprs: PackageUnsafetyCount,
    pub item_impls: PackageUnsafetyCount,
    pub item_traits: PackageUnsafetyCount,
    pub methods: PackageUnsafetyCount,
}

#[derive(Debug, Clone)]
pub struct PackageUnsafetyCount {
    pub safe: usize,
    pub unsafe_: usize,
}

} // verus!
