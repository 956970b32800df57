//! Workers, as far as a monitor deals with them.
use std::sync::Arc;
use vstd::prelude::*;

use crate::decimal::append_decimal;

verus! {

/// The name of the copy with number `index` of the worker called `name`.
pub open spec fn numbered_name(name: Seq<char>, index: nat) -> Seq<char> {
    name + "-"@ + crate::decimal::decimal(index)
}

/// The name of a worker.
#[derive(Debug)]
pub struct WorkerId {
    name: String,
}

impl View for WorkerId {
    type V = Seq<char>;

    closed spec fn view(&self) -> Seq<char> {
        self.name@
    }
}

impl WorkerId {
    /// Creates the id of the worker called `name`.
    pub fn new(name: String) -> (id: WorkerId)
        ensures
            id@ == name@,
    {
        WorkerId { name }
    }

    /// The worker's name.
    pub fn name(&self) -> (name: &str)
        ensures
            name@ == self@,
    {
        self.name.as_str()
    }

    /// The id of the copy with number `index` of this worker.
    pub fn numbered(&self, index: usize) -> (id: WorkerId)
        ensures
            id@ == numbered_name(self@, index as nat),
    {
        let mut name = self.name.clone();
        name.append("-");
        append_decimal(&mut name, index);
        WorkerId::new(name)
    }
}

/// A worker in the state `T`.
#[derive(Debug)]
pub struct Worker<T> {
    /// The worker's name.
    pub id: WorkerId,
    /// The worker's state.
    pub state: T,
}

/// The state of a worker that is ready for running.
///
/// `B` is what the worker runs: its service and its backend. `S` and `E` are the shutdown
/// token and the event handler that the worker shares with the monitor it is registered with.
#[derive(Debug)]
pub struct Ready<B, S, E> {
    /// What the worker runs.
    pub body: B,
    /// The shutdown token that the worker obeys, once it is registered.
    pub shutdown: Option<Arc<S>>,
    /// Where the worker's events go.
    pub event_handler: Arc<E>,
}

/// The worker's name is part of the name of each of its copies, and copies with different
/// numbers have different names.
pub proof fn law_numbered_names_differ(name: Seq<char>, i: nat, j: nat)
    requires
        i != j,
    ensures
        numbered_name(name, i) != numbered_name(name, j),
        numbered_name(name, i).take(name.len() as int) == name,
{
    let prefix = name + "-"@;
    let a = numbered_name(name, i);
    let b = numbered_name(name, j);
    assert(a.skip(prefix.len() as int) =~= crate::decimal::decimal(i));
    assert(b.skip(prefix.len() as int) =~= crate::decimal::decimal(j));
    assert(a.take(name.len() as int) =~= name);
    if a == b {
        crate::decimal::law_decimal_injective(i, j);
    }
}

/// The name of a copy reads back: it is the worker's name, a hyphen, and the number of the copy
/// in decimal digits, without a leading zero unless it is 0.
pub proof fn law_numbered_name_reads_back(name: Seq<char>, index: nat)
    ensures
        ({
            let full = numbered_name(name, index);
            let number = full.skip(name.len() as int + 1);
            &&& full.len() > name.len() + 1
            &&& full.take(name.len() as int) == name
            &&& full[name.len() as int] == '-'
            &&& forall|i: int| 0 <= i < number.len() ==> '0' <= #[trigger] number[i] <= '9'
            &&& number[0] == '0' ==> number.len() == 1
            &&& crate::decimal::base_ten_value(number) == index
        }),
{
    reveal_strlit("-");
    crate::decimal::law_numeral_reads_back(index);
    let full = numbered_name(name, index);
    assert(full.skip(name.len() as int + 1) =~= crate::decimal::decimal(index));
    assert(full.take(name.len() as int) =~= name);
}

} // verus!
