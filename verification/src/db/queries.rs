//! The statements that are built from rows before they are sent to the store.

use crate::db::schema::{addr_views, Addr, AddrView};
use crate::views::string_views;
use vstd::prelude::*;
use vstd::string::StringExecFns;

verus! {

/// A statement with `?` placeholders, and the texts to bind to them in order.
#[derive(Debug)]
pub struct Statement {
    pub query: String,
    pub binds: Vec<String>,
}

/// The text of the statement that removes the rows of `n` keys: after the `WHERE`, one
/// condition `(server_id = ? AND interface = ?)` for each key, joined by `OR`.
pub open spec fn delete_query(n: nat) -> Seq<char>
    decreases n,
{
    if n == 0 {
        "DELETE FROM addr WHERE "@
    } else if n == 1 {
        "DELETE FROM addr WHERE "@ + "(server_id = ? AND interface = ?)"@
    } else {
        delete_query((n - 1) as nat) + " OR "@ + "(server_id = ? AND interface = ?)"@
    }
}

/// The server and the interface of each row, row after row.
pub open spec fn key_binds(rows: Seq<AddrView>) -> Seq<Seq<char>>
    decreases rows.len(),
{
    if rows.len() == 0 {
        Seq::empty()
    } else {
        key_binds(rows.drop_last()).push(rows.last().server_id).push(rows.last().interface)
    }
}

/// The one statement that removes the stored rows of `addrs`, or nothing where there
/// is no row to remove.
///
/// The statement is `DELETE FROM addr WHERE` followed by one condition
/// `(server_id = ? AND interface = ?)` for each row, joined by `OR`; bound to it are the
/// server and the interface of each row, in the order of the rows.
pub fn delete_addr(addrs: &Vec<Addr>) -> (r: Option<Statement>)
    ensures
        r is Some <==> addrs@.len() > 0,
        r matches Some(statement) ==> statement.query@ == delete_query(addrs@.len())
            && string_views(statement.binds@) == key_binds(addr_views(addrs@)),
{
    if addrs.len() == 0 {
        return None;
    }
    let mut query = "DELETE FROM addr WHERE ".to_owned();
    let mut binds: Vec<String> = Vec::new();
    let ghost rows = addr_views(addrs@);
    let mut i: usize = 0;
    while i < addrs.len()
        invariant
            i <= addrs.len(),
            rows == addr_views(addrs@),
            query@ == delete_query(i as nat),
            string_views(binds@) == key_binds(rows.take(i as int)),
        decreases addrs.len() - i,
    {
        let ghost before = binds@;
        if i > 0 {
            query.append(" OR ");
        }
        query.append("(server_id = ? AND interface = ?)");
        binds.push(addrs[i].server_id.clone());
        binds.push(addrs[i].interface.clone());
        proof {
            assert(rows.take(i + 1).drop_last() == rows.take(i as int));
            assert(rows.take(i + 1).last() == addrs@[i as int]@);
            assert(string_views(binds@) == string_views(before).push(addrs@[i as int].server_id@).push(
                addrs@[i as int].interface@,
            ));
        }
        i += 1;
    }
    assert(rows.take(addrs.len() as int) == rows);
    Some(Statement { query, binds })
}

} // verus!
