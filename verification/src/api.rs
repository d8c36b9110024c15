//! API path constants. Keep paths in one place so a base-URL or version
//! change is a single edit.

use vstd::prelude::*;
use crate::text::{signed_decimal, push_str, write_signed_decimal};

verus! {

/// `GET` server health/status.
pub const SYSTEM_STATUS: &'static str = "/api/v3/system/status";

/// Collection path for items (`GET` list, `POST` create).
pub const ITEMS: &'static str = "/api/v3/item";

/// The path of a single item, `/api/v3/item/{id}`.
pub open spec fn item_path(id: int) -> Seq<char> {
    ITEMS@ + seq!['/'] + signed_decimal(id)
}

/// Path for a single item by id (`GET`, `DELETE`).
pub fn item(id: i64) -> (path: String)
    ensures
        path@ == item_path(id as int),
{
    let mut s = String::new();
    push_str(&mut s, ITEMS);
    crate::text::push_char(&mut s, '/');
    write_signed_decimal(&mut s, id);
    assert(s@ =~= item_path(id as int));
    s
}

} // verus!
