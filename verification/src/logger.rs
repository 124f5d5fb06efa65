//! What is written to the store of departures: its name, what to do with a
//! store found in place, and the statements that create the table and add
//! a row.

use crate::gate::DepartedVehicle;
use crate::text::{decimal, ends_with, has_suffix, push_decimal, same_text};
use crate::vehicle::PaymentMean;
use vstd::prelude::*;
use vstd::string::StringExecFns;

verus! {

/// The statement that creates the table of departures and its index.
pub const CREATE_TABLE: &'static str = "create table vehicle ( \
    id            INTEGER not null \
        constraint id \
            primary key autoincrement, \
    kilometres    INTEGER not null, \
    nb_passengers INTEGER not null, \
    type          INTEGER not null, \
    payment_mean  INTEGER not null, \
    arrival       TEXT    not null, \
    departure     TEXT    not null, \
    constraint type_check_1 \
        check (type >= 0), \
    constraint type_check_2 \
        check (type < 6) \
); \
create unique index vehicle_id_uindex \
    on vehicle (id);";

/// The name of the store for the name that was asked for: `.sqlite` is put
/// behind it unless it ends so already or names the store in memory.
pub open spec fn spec_store_name(name: Seq<char>) -> Seq<char> {
    if has_suffix(name, ".sqlite"@) || name == ":memory:"@ {
        name
    } else {
        name + ".sqlite"@
    }
}

/// The name of the store for the name that was asked for.
pub fn store_name(name: &str) -> (r: String)
    ensures
        r@ == spec_store_name(name@),
{
    let mut out: String = String::from_str(name);
    if !ends_with(name, ".sqlite") && !same_text(name, ":memory:") {
        out.append(".sqlite");
    }
    out
}

/// What to do before the store is opened.
#[derive(Clone, Copy, Debug, PartialEq, Eq, Structural)]
pub enum StorePlan {
    /// Open it: nothing is in the way.
    Open,
    /// A file of that name is left from before: remove it, then open.
    Replace,
    /// Something that is no file has that name: give up.
    Refuse,
}

/// What to do before the store `name` is opened, given whether something of
/// that name exists and whether it is a file. The store in memory is never
/// in the way of itself.
pub open spec fn spec_plan_store(name: Seq<char>, exists: bool, is_file: bool) -> StorePlan {
    if name == ":memory:"@ || !exists {
        StorePlan::Open
    } else if is_file {
        StorePlan::Replace
    } else {
        StorePlan::Refuse
    }
}

/// What to do before the store `name` is opened, given whether something of
/// that name exists and whether it is a file.
pub fn plan_store(name: &str, exists: bool, is_file: bool) -> (r: StorePlan)
    ensures
        r == spec_plan_store(name@, exists, is_file),
{
    if same_text(name, ":memory:") || !exists {
        StorePlan::Open
    } else if is_file {
        StorePlan::Replace
    } else {
        StorePlan::Refuse
    }
}

/// The statement that records `record`: the distance, the people on board,
/// the numbers of the class and of the means of payment, and the two
/// timestamps as text.
pub open spec fn insert_text(record: DepartedVehicle) -> Seq<char> {
    "insert into vehicle (kilometres, nb_passengers, type, payment_mean, arrival, departure) values ("@
        + decimal(record.vehicle.nb_kilometres as nat) + ", "@ + decimal(
        record.vehicle.nb_passengers as nat,
    ) + ", "@ + decimal(record.vehicle.type_.spec_code()) + ", "@ + decimal(
        if record.vehicle.payment_mean == PaymentMean::Cash {
            0
        } else {
            1
        },
    ) + ", \""@ + record.arrival.timestamp_text() + "\", \""@ + record.departure.timestamp_text()
        + "\");"@
}

/// The statement that records `record`.
pub fn insert_statement(record: &DepartedVehicle) -> (r: String)
    ensures
        r@ == insert_text(*record),
{
    let mut out: String = String::from_str(
        "insert into vehicle (kilometres, nb_passengers, type, payment_mean, arrival, departure) values (",
    );
    push_decimal(&mut out, record.vehicle.nb_kilometres as u64);
    out.append(", ");
    push_decimal(&mut out, record.vehicle.nb_passengers as u64);
    out.append(", ");
    push_decimal(&mut out, record.vehicle.type_num() as u64);
    out.append(", ");
    push_decimal(&mut out, record.vehicle.payment_mean.code() as u64);
    out.append(", \"");
    let arrival: String = record.arrival.to_timestamp();
    out.append(arrival.as_str());
    out.append("\", \"");
    let departure: String = record.departure.to_timestamp();
    out.append(departure.as_str());
    out.append("\");");
    assert(out@ =~= insert_text(*record));
    out
}

} // verus!
