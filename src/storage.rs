//! The pure side of the saved-connection and session stores: the records, and
//! how a stored list changes on save and delete.
use vstd::prelude::*;
use crate::models::SavedConnection;
use crate::text::str_eq;

verus! {

/// One open editor tab.
#[derive(Clone, Debug)]
pub struct TabState {
    pub id: String,
    pub title: String,
    pub sql: String,
    pub connection_id: Option<String>,
    pub saved_connection_id: Option<String>,
    pub db_name: Option<String>,
}

/// What the application restores on start; every field may be absent.
#[derive(Clone, Debug)]
pub struct Session {
    pub last_connection_id: Option<String>,
    pub last_saved_connection_id: Option<String>,
    pub last_table: Option<String>,
    pub last_query: Option<String>,
    pub tabs: Option<Vec<TabState>>,
    pub active_tab_id: Option<String>,
}

impl Default for Session {
    /// The empty session, used when nothing usable is stored.
    fn default() -> (r: Session)
        ensures
            r.last_connection_id is None,
            r.last_saved_connection_id is None,
            r.last_table is None,
            r.last_query is None,
            r.tabs is None,
            r.active_tab_id is None,
    {
        Session {
            last_connection_id: None,
            last_saved_connection_id: None,
            last_table: None,
            last_query: None,
            tabs: None,
            active_tab_id: None,
        }
    }
}

/// Saves `connection` into the list: it replaces the first entry with the
/// same id, or is appended when there is none.
pub fn add_connection(connections: Vec<SavedConnection>, connection: SavedConnection) -> (r: Vec<
    SavedConnection,
>)
    ensures
        (forall|q: int| 0 <= q < connections@.len() ==> connections@[q].id@ != connection.id@)
            ==> r@ == connections@.push(connection),
        forall|p: int|
            0 <= p < connections@.len() && connections@[p].id@ == connection.id@ && (forall|q: int|
                0 <= q < p ==> connections@[q].id@ != connection.id@) ==> r@ == connections@.update(
                p,
                connection,
            ),
{
    let mut list = connections;
    let mut i: usize = 0;
    while i < list.len()
        invariant
            list@ == connections@,
            i <= list@.len(),
            forall|q: int| 0 <= q < i ==> list@[q].id@ != connection.id@,
        decreases list@.len() - i,
    {
        if str_eq(list[i].id.as_str(), connection.id.as_str()) {
            list.set(i, connection);
            return list;
        }
        i = i + 1;
    }
    list.push(connection);
    list
}

/// Removes every saved connection with the given id; the others keep their order.
pub fn delete_connection(connections: Vec<SavedConnection>, id: &str) -> (r: Vec<SavedConnection>)
    ensures
        r@ == connections@.filter(|c: SavedConnection| c.id@ != id@),
{
    let mut list = connections;
    let mut i: usize = 0;
    let ghost mut k: int = 0;
    while i < list.len()
        invariant
            0 <= i <= k <= connections@.len(),
            list@.len() == i + (connections@.len() - k),
            list@.subrange(0, i as int) == connections@.subrange(0, k).filter(
                |c: SavedConnection| c.id@ != id@,
            ),
            list@.subrange(i as int, list@.len() as int) == connections@.subrange(
                k,
                connections@.len() as int,
            ),
        decreases list@.len() - i,
    {
        let ghost before = list@;
        proof {
            let n = connections@.len() as int;
            assert(before.subrange(i as int, before.len() as int)[0] == before[i as int]);
            assert(connections@.subrange(k, n)[0] == connections@[k]);
            assert(before.subrange(i + 1, before.len() as int) =~= before.subrange(
                i as int,
                before.len() as int,
            ).drop_first());
            assert(connections@.subrange(k + 1, n) =~= connections@.subrange(k, n).drop_first());
            assert(connections@.subrange(0, k + 1).drop_last() =~= connections@.subrange(0, k));
            assert(connections@.subrange(0, k + 1).last() == before[i as int]);
            reveal(Seq::filter);
        }
        if str_eq(list[i].id.as_str(), id) {
            let _ = list.remove(i);
            proof {
                assert(list@.subrange(0, i as int) =~= before.subrange(0, i as int));
                assert(list@.subrange(i as int, list@.len() as int) =~= connections@.subrange(
                    k + 1,
                    connections@.len() as int,
                ));
            }
        } else {
            proof {
                assert(list@.subrange(0, i + 1) =~= before.subrange(0, i as int).push(before[i as int]));
                assert(list@.subrange(i + 1, list@.len() as int) =~= connections@.subrange(
                    k + 1,
                    connections@.len() as int,
                ));
            }
            i = i + 1;
        }
        proof {
            k = k + 1;
        }
    }
    assert(connections@.subrange(0, connections@.len() as int) =~= connections@);
    assert(list@.subrange(0, i as int) =~= list@);
    list
}

} // verus!
