//! Names for simulators.
//!
//! The kernel wants every simulator under a name of its own.  A name made
//! here holds the id of the process and a count that the process never
//! repeats, so that no two names made by live processes are the same.

use crate::text::{
    decimal, lemma_cancel, lemma_decimal, lemma_decimal_injective, lemma_digits_end, to_decimal,
};
use vstd::prelude::*;
use vstd::string::*;

verus! {

/// The name `<app>-p<pid>-<count>`, with `-<instance>` after it where an
/// instance is given.
pub open spec fn unique(app: Seq<char>, pid: u32, count: u32, instance: Option<Seq<char>>) -> Seq<
    char,
> {
    let stem = app + "-p"@ + decimal(pid as nat) + "-"@ + decimal(count as nat);
    match instance {
        Some(instance) => stem + "-"@ + instance,
        None => stem,
    }
}

/// The name of the application, where the process knows none.
pub open spec fn fallback_app() -> Seq<char> {
    "gpiosim"@
}

/// The name of the application: the file name that the process was started
/// as, where it has one.
pub open spec fn app_of(file_name: Option<Seq<char>>) -> Seq<char> {
    match file_name {
        Some(name) => name,
        None => fallback_app(),
    }
}

/// Create a unique, but predictable, name for a simulator.
///
/// The name format is `<app>-p<pid>-<N>[-<instance>]`, where `pid` is the
/// id of the process and `count` the number of names that the process has
/// made before.
pub fn unique_name(app: &str, pid: u32, count: u32, instance: Option<&str>) -> (name: String)
    ensures
        name@ == unique(
            app@,
            pid,
            count,
            match instance {
                Some(instance) => Some(instance@),
                None => None,
            },
        ),
{
    let mut name = app.to_owned();
    name.append("-p");
    name.append(to_decimal(pid as u64).as_str());
    name.append("-");
    name.append(to_decimal(count as u64).as_str());
    if let Some(instance) = instance {
        name.append("-");
        name.append(instance);
    }
    name
}

/// The name of the application, from the file name that the process was
/// started as, if it has one.
pub fn app_name(file_name: Option<&str>) -> (app: String)
    ensures
        app@ == app_of(
            match file_name {
                Some(name) => Some(name@),
                None => None,
            },
        ),
{
    match file_name {
        Some(name) => name.to_owned(),
        None => "gpiosim".to_owned(),
    }
}

/// The name for a simulator that was given none.
pub fn default_name(file_name: Option<&str>, pid: u32, count: u32) -> (name: String)
    ensures
        name@ == unique(
            app_of(
                match file_name {
                    Some(name) => Some(name@),
                    None => None,
                },
            ),
            pid,
            count,
            None,
        ),
{
    unique_name(app_name(file_name).as_str(), pid, count, None)
}

/// Names made for one application and one instance are the same only if
/// they hold the same process id and the same count: no two processes that
/// are alive make the same name, and no process makes a name twice.
pub proof fn lemma_unique_is_injective(
    app: Seq<char>,
    instance: Option<Seq<char>>,
    pid: u32,
    count: u32,
    other_pid: u32,
    other_count: u32,
)
    requires
        unique(app, pid, count, instance) == unique(app, other_pid, other_count, instance),
    ensures
        pid == other_pid,
        count == other_count,
{
    reveal_strlit("-p");
    reveal_strlit("-");
    let tail = match instance {
        Some(instance) => "-"@ + instance,
        None => Seq::empty(),
    };
    let rest = "-"@ + (decimal(count as nat) + tail);
    let other_rest = "-"@ + (decimal(other_count as nat) + tail);
    let head = app + "-p"@;
    assert(unique(app, pid, count, instance) =~= head + (decimal(pid as nat) + rest));
    assert(unique(app, other_pid, other_count, instance) =~= head + (decimal(other_pid as nat)
        + other_rest));
    lemma_cancel(head, decimal(pid as nat) + rest, decimal(other_pid as nat) + other_rest);
    lemma_decimal(pid as nat);
    lemma_decimal(other_pid as nat);
    assert(rest[0] == '-' && other_rest[0] == '-');
    lemma_digits_end(decimal(pid as nat), rest, decimal(other_pid as nat), other_rest);
    lemma_decimal_injective(pid as nat, other_pid as nat);
    lemma_cancel("-"@, decimal(count as nat) + tail, decimal(other_count as nat) + tail);
    lemma_decimal(count as nat);
    lemma_decimal(other_count as nat);
    if tail.len() > 0 {
        assert(tail[0] == '-');
    }
    lemma_digits_end(decimal(count as nat), tail, decimal(other_count as nat), tail);
    lemma_decimal_injective(count as nat, other_count as nat);
}

} // verus!
