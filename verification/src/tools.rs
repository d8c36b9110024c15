//! The commands and tools built on the client: the parameters of the MCP
//! tools and the results they return, the `item` subcommands of the CLI and
//! the request each one sends, and the rows the CLI prints.

use vstd::prelude::*;
use crate::api::{item_path, ITEMS};
use crate::client::{ApiClient, ApiRequest, Method};
use crate::models::{Item, NewItem, Page, SystemStatus};
use crate::json::{json_get, member, Json, JsonValue};
use crate::redact::members_model;
use crate::text::{decimal, signed_decimal, str_eq, write_signed_decimal};

verus! {

/// Default `page` of `list_items`.
pub fn default_page() -> (r: u32)
    ensures
        r == 1,
{
    1
}

/// Default `page_size` of `list_items`.
pub fn default_page_size() -> (r: u32)
    ensures
        r == 20,
{
    20
}

/// Parameters for `list_items`.
pub struct ListItemsParams {
    /// 1-based page number (at least 1).
    pub page: u32,
    /// Page size (1 to 1000).
    pub page_size: u32,
}

/// Parameters for `get_item` / `delete_item`.
pub struct ItemIdParams {
    /// Item id.
    pub id: i64,
}

/// Parameters for `create_item`.
pub struct CreateItemParams {
    /// Item name.
    pub name: String,
    /// Whether the item starts enabled (default `false`).
    pub enabled: bool,
}

/// Structured result of `list_items`: the page, wrapped in an object with
/// the pagination totals the model needs to fetch further pages.
pub struct ListItemsResult {
    /// Items on the requested page.
    pub items: Vec<Item>,
    /// 1-based page index.
    pub page: u32,
    /// Number of items requested per page.
    pub page_size: u32,
    /// Total items available across all pages.
    pub total_records: u32,
}

/// Structured result of `delete_item`.
pub struct DeleteResult {
    /// Always `true` on success (failures surface as a tool error instead).
    pub deleted: bool,
    /// Id of the deleted item.
    pub id: i64,
}

/// The result of `list_items` for a fetched page.
pub fn list_items_result(page: Page<Item>) -> (r: ListItemsResult)
    ensures
        r.items@ == page.records@,
        r.page == page.page,
        r.page_size == page.page_size,
        r.total_records == page.total_records,
{
    ListItemsResult {
        items: page.records,
        page: page.page,
        page_size: page.page_size,
        total_records: page.total_records,
    }
}

/// The result of `delete_item` once item `id` is deleted.
pub fn delete_result(id: i64) -> (r: DeleteResult)
    ensures
        r.deleted,
        r.id == id,
{
    DeleteResult { deleted: true, id }
}

/// The body `create_item` sends for its parameters.
pub fn new_item(params: &CreateItemParams) -> (r: NewItem)
    ensures
        r.name@ == params.name@,
        r.enabled == params.enabled,
{
    NewItem { name: params.name.clone(), enabled: params.enabled }
}

/// Shells a static completion script can be generated for (clap's shells
/// and Nushell).
#[derive(Clone, Copy, Debug, PartialEq, Eq, Structural)]
pub enum CompletionShell {
    Bash,
    Elvish,
    Fish,
    Nushell,
    PowerShell,
    Zsh,
}

/// The `item` subcommands of the CLI.
pub enum ItemCommand {
    /// List items (paginated).
    List {
        /// Page number (1-based, default 1).
        page: u32,
        /// Page size (default 20).
        page_size: u32,
    },
    /// Get a single item by id.
    Get {
        /// Item id.
        id: i64,
    },
    /// Create an item.
    Create {
        /// Item name.
        name: String,
        /// Start enabled.
        enabled: bool,
    },
    /// Delete an item by id.
    Delete {
        /// Item id.
        id: i64,
    },
}

impl ItemCommand {
    /// The request this subcommand sends.
    pub fn request(&self, client: &ApiClient) -> (r: ApiRequest)
        ensures
            match *self {
                ItemCommand::List { page, page_size } => r.method == Method::Get && r.url@ == client@.base_url
                    + ITEMS@ && crate::client::query_view(r.query@) == seq![
                    ("page"@, decimal(page as nat)),
                    ("pageSize"@, decimal(page_size as nat)),
                ] && r.body is None,
                ItemCommand::Get { id } => r.method == Method::Get && r.url@ == client@.base_url + item_path(
                    id as int,
                ) && r.query@.len() == 0 && r.body is None,
                ItemCommand::Create { name, enabled } => r.method == Method::Post && r.url@ == client@.base_url
                    + ITEMS@ && r.query@.len() == 0 && (r.body matches Some(b) && b.name@ == name@ && b.enabled
                    == enabled),
                ItemCommand::Delete { id } => r.method == Method::Delete && r.url@ == client@.base_url
                    + item_path(id as int) && r.query@.len() == 0 && r.body is None,
            },
    {
        match self {
            ItemCommand::List { page, page_size } => client.list_items_request(*page, *page_size),
            ItemCommand::Get { id } => client.get_item_request(*id),
            ItemCommand::Create { name, enabled } => {
                let body = NewItem { name: name.clone(), enabled: *enabled };
                client.create_item_request(&body)
            },
            ItemCommand::Delete { id } => client.delete_item_request(*id),
        }
    }
}

/// `true` or `false`, as `bool::to_string`.
pub open spec fn bool_text(b: bool) -> Seq<char> {
    if b {
        "true"@
    } else {
        "false"@
    }
}

/// The printed row of an item: id, name, enabled.
pub open spec fn item_row(i: Item) -> Seq<Seq<char>> {
    seq![signed_decimal(i.id as int), i.name@, bool_text(i.enabled)]
}

/// The cells of a row as text.
pub open spec fn row_view(row: Vec<String>) -> Seq<Seq<char>> {
    row@.map_values(|c: String| c@)
}

/// The printed row of an item.
fn item_row_cells(item: &Item) -> (r: Vec<String>)
    ensures
        row_view(r) == item_row(*item),
{
    let mut id = String::new();
    write_signed_decimal(&mut id, item.id);
    let enabled = if item.enabled {
        String::from_str("true")
    } else {
        String::from_str("false")
    };
    let mut row: Vec<String> = Vec::new();
    row.push(id);
    row.push(item.name.clone());
    row.push(enabled);
    assert(row_view(row) =~= item_row(*item));
    row
}

/// The rows the CLI prints for `items`, one per item, in order.
pub fn item_rows(items: &[Item]) -> (r: Vec<Vec<String>>)
    ensures
        r@.len() == items@.len(),
        forall|k: int| 0 <= k < items@.len() ==> row_view(#[trigger] r@[k]) == item_row(items@[k]),
{
    let mut rows: Vec<Vec<String>> = Vec::new();
    let mut i: usize = 0;
    while i < items.len()
        invariant
            i <= items@.len(),
            rows@.len() == i,
            forall|k: int| 0 <= k < i ==> row_view(#[trigger] rows@[k]) == item_row(items@[k]),
        decreases items@.len() - i,
    {
        rows.push(item_row_cells(&items[i]));
        i = i + 1;
    }
    rows
}

/// The row the CLI prints for the server status: application name, version.
pub fn status_row(status: &SystemStatus) -> (r: Vec<String>)
    ensures
        row_view(r) == seq![status.app_name@, status.version@],
{
    let mut row: Vec<String> = Vec::new();
    row.push(status.app_name.clone());
    row.push(status.version.clone());
    assert(row_view(row) =~= seq![status.app_name@, status.version@]);
    row
}

/// The tool error for a result of `size` bytes over the cap of `max` bytes.
pub open spec fn oversize_text(size: nat, max: nat) -> Seq<char> {
    "response_too_large: the result is "@ + decimal(size) + " bytes, over the limit of "@ + decimal(max)
        + " bytes; narrow the request (for example a smaller page_size)"@
}

/// Whether a serialized tool result of `size` bytes may be returned under
/// the cap `max`; the bounded error that replaces it otherwise.
pub fn check_response_size(size: usize, max: usize) -> (r: Result<(), String>)
    ensures
        size <= max ==> r is Ok,
        size > max ==> (r matches Err(m) && m@ == oversize_text(size as nat, max as nat)),
{
    if size <= max {
        return Ok(());
    }
    let mut m = String::from_str("response_too_large: the result is ");
    crate::text::write_decimal(&mut m, size as u64);
    crate::text::push_str(&mut m, " bytes, over the limit of ");
    crate::text::write_decimal(&mut m, max as u64);
    crate::text::push_str(&mut m, " bytes; narrow the request (for example a smaller page_size)");
    Err(m)
}

/// `members` with `key` set to `value`: the first member of that name takes
/// the value, or a member is appended when there is none.
pub open spec fn set_member(ms: Seq<(Seq<char>, Json)>, key: Seq<char>, value: Json) -> Seq<(Seq<char>, Json)>
    decreases ms.len(),
{
    if ms.len() == 0 {
        seq![(key, value)]
    } else if ms[0].0 == key {
        seq![(key, value)] + ms.drop_first()
    } else {
        seq![ms[0]] + set_member(ms.drop_first(), key, value)
    }
}

/// A tool's input schema closed to properties it does not declare: an
/// object schema gets `"additionalProperties": false`.
pub open spec fn closed_schema(j: Json) -> Json {
    match j {
        Json::Object(ms) => Json::Object(set_member(ms, "additionalProperties"@, Json::Bool(false))),
        _ => j,
    }
}

/// Setting a member where the first of its name stands at `i`, or appending
/// it when none has the name.
proof fn lemma_set_member_at(ms: Seq<(Seq<char>, Json)>, key: Seq<char>, value: Json, i: int)
    requires
        0 <= i <= ms.len(),
        forall|k: int| 0 <= k < i ==> (#[trigger] ms[k]).0 != key,
        i < ms.len() ==> ms[i].0 == key,
    ensures
        set_member(ms, key, value) == (if i < ms.len() {
            ms.update(i, (key, value))
        } else {
            ms.push((key, value))
        }),
    decreases ms.len(),
{
    if ms.len() == 0 {
        assert(ms.push((key, value)) =~= seq![(key, value)]);
    } else if ms[0].0 == key {
        assert(i == 0);
        assert(ms.update(0, (key, value)) =~= seq![(key, value)] + ms.drop_first());
    } else {
        assert forall|k: int| 0 <= k < i - 1 implies (#[trigger] ms.drop_first()[k]).0 != key by {
            assert(ms.drop_first()[k] == ms[k + 1]);
        }
        lemma_set_member_at(ms.drop_first(), key, value, i - 1);
        if i < ms.len() {
            assert(seq![ms[0]] + ms.drop_first().update(i - 1, (key, value)) =~= ms.update(i, (key, value)));
        } else {
            assert(seq![ms[0]] + ms.drop_first().push((key, value)) =~= ms.push((key, value)));
        }
    }
}

/// A set member reads back as the value set; the other names read as before.
pub proof fn lemma_set_member_get(ms: Seq<(Seq<char>, Json)>, key: Seq<char>, value: Json, other: Seq<char>)
    ensures
        member(set_member(ms, key, value), key) == Some(value),
        other != key ==> member(set_member(ms, key, value), other) == member(ms, other),
    decreases ms.len(),
{
    let r = set_member(ms, key, value);
    if ms.len() == 0 {
        assert(r[0] == (key, value));
        assert(r.drop_first() =~= Seq::<(Seq<char>, Json)>::empty());
        assert(member(r.drop_first(), other) is None);
    } else if ms[0].0 == key {
        assert(r[0] == (key, value));
        assert(r.drop_first() =~= ms.drop_first());
    } else {
        lemma_set_member_get(ms.drop_first(), key, value, other);
        assert(r[0] == ms[0]);
        assert(r.drop_first() =~= set_member(ms.drop_first(), key, value));
    }
}

/// Closes a tool's input schema: an object gets `"additionalProperties":
/// false` (replacing a value it had), anything else is left as it is.
pub fn close_schema(schema: JsonValue) -> (r: JsonValue)
    ensures
        r.model() == closed_schema(schema.model()),
{
    let ghost s0 = schema;
    match schema {
        JsonValue::Object(members) => {
            let mut members = members;
            let ghost om = members_model(members@);
            assert(s0.model()->Object_0 =~= om);
            let key = "additionalProperties";
            let mut i: usize = 0;
            while i < members.len()
                invariant
                    i <= members@.len(),
                    om == members_model(members@),
                    forall|k: int| 0 <= k < i ==> (#[trigger] om[k]).0 != key@,
                ensures
                    i <= members@.len(),
                    om == members_model(members@),
                    forall|k: int| 0 <= k < i ==> (#[trigger] om[k]).0 != key@,
                    i < members@.len() ==> om[i as int].0 == key@,
                decreases members@.len() - i,
            {
                if str_eq(members[i].0.as_str(), key) {
                    assert(om[i as int].0 == members@[i as int].0@);
                    break;
                }
                i = i + 1;
            }
            proof {
                lemma_set_member_at(om, key@, Json::Bool(false), i as int);
            }
            let entry = (String::from_str(key), JsonValue::Bool(false));
            if i < members.len() {
                members.set(i, entry);
                assert(members_model(members@) =~= om.update(i as int, (key@, Json::Bool(false))));
            } else {
                members.push(entry);
                assert(members_model(members@) =~= om.push((key@, Json::Bool(false))));
            }
            let r = JsonValue::Object(members);
            assert(r.model()->Object_0 =~= members_model(members@));
            r
        },
        other => other,
    }
}

/// A closed object schema refuses undeclared properties, and answers every
/// other lookup as before.
pub proof fn lemma_closed_schema(ms: Seq<(Seq<char>, Json)>, other: Seq<char>)
    ensures
        json_get(closed_schema(Json::Object(ms)), "additionalProperties"@) == Some(Json::Bool(false)),
        other != "additionalProperties"@ ==> json_get(closed_schema(Json::Object(ms)), other) == json_get(
            Json::Object(ms),
            other,
        ),
{
    lemma_set_member_get(ms, "additionalProperties"@, Json::Bool(false), other);
}

} // verus!
