//! Where the book is kept, and what becomes of the records when a file was
//! read. Reading and writing the file is the caller's business.

use crate::record::Customer;
use vstd::prelude::*;

verus! {

/// Makes `directories::ProjectDirs` known as an opaque type: a value of it
/// is carried from one call to the next and nothing is said of what it holds.
#[verifier::external_type_specification]
#[verifier::external_body]
pub struct ExProjectDirs(directories::ProjectDirs);

/// Calls `directories::ProjectDirs::from`, which looks up the home directory
/// of the user and builds the project's directories from it. It returns
/// `None` when the system names no home directory. What it returns depends
/// on the machine and on the user's settings, so the contract claims nothing
/// about it.
#[verifier::external_body]
fn project_dirs(qualifier: &str, organization: &str, application: &str) -> (dirs: Option<
    directories::ProjectDirs,
>) {
    directories::ProjectDirs::from(qualifier, organization, application)
}

/// Calls `directories::ProjectDirs::config_dir`, which hands out the path of
/// the project's configuration directory, and turns the path into a string.
/// The result is `None` when the path is not valid Unicode. The contract
/// claims nothing about the path.
#[verifier::external_body]
fn config_dir(dirs: &directories::ProjectDirs) -> (dir: Option<String>) {
    dirs.config_dir().to_str().map(String::from)
}

/// Calls `std::path::Path::join`, which appends `file_name` to `dir` as the
/// platform writes paths. The result is `None` when the joined path is not
/// valid Unicode. The separator differs between platforms, so the contract
/// claims nothing about the result.
#[verifier::external_body]
fn join_path(dir: &str, file_name: &str) -> (path: Option<String>) {
    std::path::Path::new(dir).join(file_name).to_str().map(String::from)
}

/// The path of the book in the configuration directory of the user, if the
/// system names one. Which directory that is, whether its path can be written
/// as a string, and how the file name is joined to it are all settled by the
/// three calls below, so nothing is promised of the result.
fn get_config_path() -> (path: Option<String>) {
    match project_dirs("au", "popplestones", "Rusty Address Book") {
        Some(dirs) => match config_dir(&dirs) {
            Some(dir) => join_path(dir.as_str(), "customers.json"),
            None => None,
        },
        None => None,
    }
}

/// The file to use: the one that was asked for, or else the default.
pub fn customer_file_or(filename: Option<String>, default_path: Option<String>) -> (path: Option<
    String,
>)
    ensures
        path == if filename is Some {
            filename
        } else {
            default_path
        },
{
    match filename {
        Some(filename) => Some(filename),
        None => default_path,
    }
}

/// The file that holds the book: `filename` when one is given, else the
/// book in the configuration directory of the user. Without a file name the
/// answer depends on the machine and on the user's settings, and there may
/// be none.
pub fn get_customer_file(filename: Option<String>) -> (path: Option<String>)
    ensures
        filename is Some ==> path == filename,
{
    let default_path = if filename.is_none() {
        get_config_path()
    } else {
        None
    };
    customer_file_or(filename, default_path)
}

/// What reading the book's file brought.
#[derive(Debug, Clone, PartialEq, Eq)]
pub enum Loaded {
    /// The file held these records.
    Records(Vec<Customer>),
    /// The file ended before any record: it is new or empty.
    EndOfInput,
    /// The file could not be understood.
    Failed,
}

/// Takes over what was read. Records that were read replace the book, an
/// empty file empties it, and a file that could not be understood leaves the
/// book as it is. The result says whether the book was loaded.
pub fn store_loaded(customers: &mut Vec<Customer>, loaded: Loaded) -> (ok: bool)
    ensures
        match loaded {
            Loaded::Records(records) => ok && *final(customers) == records,
            Loaded::EndOfInput => ok && final(customers)@ == Seq::<Customer>::empty(),
            Loaded::Failed => !ok && *final(customers) == *old(customers),
        },
{
    match loaded {
        Loaded::Records(records) => {
            *customers = records;
            true
        },
        Loaded::EndOfInput => {
            customers.clear();
            true
        },
        Loaded::Failed => false,
    }
}

/// Deleting records is not offered yet: the call takes the parameters of the
/// command and does nothing.
pub fn delete_customer(params: Vec<String>) {
}

} // verus!
