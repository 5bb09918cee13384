//! What a connection starts from: the agent and second party named in the opening
//! request, the chat's stored record, and the messages read back from store.
use vstd::prelude::*;
use crate::db_item::{AttrValue, AttrView, DbItem};
use crate::messages::{MessageError, MessageType, MessageTypeView, read_message};

verus! {

broadcast use vstd::string::group_string_axioms;

/// The path that `httparse::Request::parse` finds in the bytes of a request
/// when given room for `max_headers` headers; `None` where parsing fails or
/// leaves no path.
pub uninterp spec fn http_request_path(request: Seq<u8>, max_headers: nat) -> Option<Seq<char>>;

/// The decoded query pairs, in order, of the URL that `url::Url::parse`
/// reads from a text; `None` where the text is no URL.
pub uninterp spec fn url_query_pairs(url: Seq<char>) -> Option<Seq<(Seq<char>, Seq<char>)>>;

/// Parses the request line and headers with `httparse::Request::parse` and
/// hands back the path it recorded. What the path is for given bytes is
/// left to the name `http_request_path`.
#[verifier::external_body]
fn request_path(request: &[u8], max_headers: usize) -> (r: Option<String>)
    ensures
        match r {
            Some(p) => http_request_path(request@, max_headers as nat) == Some(p@),
            None => http_request_path(request@, max_headers as nat) is None,
        },
{
    let mut headers = vec![httparse::EMPTY_HEADER; max_headers];
    let mut req = httparse::Request::new(&mut headers);
    match req.parse(request) {
        Ok(_) => match req.path {
            Some(p) => Some(p.to_string()),
            None => None,
        },
        Err(_) => None,
    }
}

/// The texts of a list of pairs.
pub open spec fn pairs_view(v: Seq<(String, String)>) -> Seq<(Seq<char>, Seq<char>)> {
    v.map_values(|p: (String, String)| (p.0@, p.1@))
}

/// Parses a URL with `url::Url::parse` and lists its `query_pairs`, each
/// key and value percent-decoded. Which pairs a text gives is left to the
/// name `url_query_pairs`.
#[verifier::external_body]
fn query_pairs(url: &str) -> (r: Option<Vec<(String, String)>>)
    ensures
        match r {
            Some(v) => url_query_pairs(url@) == Some(pairs_view(v@)),
            None => url_query_pairs(url@) is None,
        },
{
    match url::Url::parse(url) {
        Ok(u) => Some(u.query_pairs().map(|(k, v)| (k.into_owned(), v.into_owned())).collect()),
        Err(_) => None,
    }
}

/// The value of the first pair whose key is `key`, or the empty text.
pub open spec fn query_value(pairs: Seq<(Seq<char>, Seq<char>)>, key: Seq<char>) -> Seq<char>
    decreases pairs.len(),
{
    if pairs.len() == 0 {
        Seq::empty()
    } else if pairs[0].0 == key {
        pairs[0].1
    } else {
        query_value(pairs.drop_first(), key)
    }
}

/// The room for headers that a request is parsed with.
pub open spec fn max_request_headers() -> nat {
    30
}

/// `value` is what the first pair keyed `key` holds, or there is no such
/// pair and `value` is empty.
pub open spec fn first_value_is(pairs: Seq<(Seq<char>, Seq<char>)>, key: Seq<char>, value: Seq<char>) -> bool {
    ||| exists|i: int| 0 <= i < pairs.len() && pairs[i] == (key, value) && forall|j: int| 0 <= j < i ==> (#[trigger] pairs[j]).0 != key
    ||| value == Seq::<char>::empty() && forall|j: int| 0 <= j < pairs.len() ==> (#[trigger] pairs[j]).0 != key
}

/// The lookup of a key gives the value of its first pair, or the empty
/// text where no pair has the key.
pub proof fn lemma_query_value_first(pairs: Seq<(Seq<char>, Seq<char>)>, key: Seq<char>, value: Seq<char>)
    requires
        first_value_is(pairs, key, value),
    ensures
        query_value(pairs, key) == value,
    decreases pairs.len(),
{
    if pairs.len() > 0 && pairs[0].0 != key {
        let rest = pairs.drop_first();
        assert(first_value_is(rest, key, value)) by {
            if exists|i: int| 0 <= i < pairs.len() && pairs[i] == (key, value) && forall|j: int| 0 <= j < i ==> (#[trigger] pairs[j]).0 != key {
                let i = choose|i: int| 0 <= i < pairs.len() && pairs[i] == (key, value) && forall|j: int| 0 <= j < i ==> (#[trigger] pairs[j]).0 != key;
                assert(i > 0);
                assert(rest[i - 1] == (key, value));
                assert forall|j: int| 0 <= j < i - 1 implies (#[trigger] rest[j]).0 != key by {
                    assert(rest[j] == pairs[j + 1]);
                }
            } else {
                assert forall|j: int| 0 <= j < rest.len() implies (#[trigger] rest[j]).0 != key by {
                    assert(rest[j] == pairs[j + 1]);
                }
            }
        }
        lemma_query_value_first(rest, key, value);
    } else if pairs.len() > 0 {
        if !(exists|i: int| 0 <= i < pairs.len() && pairs[i] == (key, value) && forall|j: int| 0 <= j < i ==> (#[trigger] pairs[j]).0 != key) {
            assert(pairs[0].0 == key);
        } else {
            let i = choose|i: int| 0 <= i < pairs.len() && pairs[i] == (key, value) && forall|j: int| 0 <= j < i ==> (#[trigger] pairs[j]).0 != key;
            if i > 0 {
                assert(pairs[0].0 != key);
            }
        }
    }
}

/// An opening request that httparse reads, with room for 30 headers, as
/// having a path whose URL query names `agentID=a` and `secondaryID=s`
/// first gives exactly `(a, s)`; one whose query lacks them gives empty
/// texts for them; one that httparse cannot read (with room for 30 headers)
/// gives nothing.
pub proof fn lemma_request_params(
    request: Seq<u8>,
    path: Seq<char>,
    pairs: Seq<(Seq<char>, Seq<char>)>,
    agent_id: Seq<char>,
    secondary_id: Seq<char>,
)
    ensures
        http_request_path(request, 30) is None ==> request_params(request) is None,
        http_request_path(request, 30) == Some(path) && url_query_pairs("http://dummyhost"@ + path) is None
            ==> request_params(request) is None,
        http_request_path(request, 30) == Some(path) && url_query_pairs("http://dummyhost"@ + path) == Some(pairs)
            && first_value_is(pairs, "agentID"@, agent_id) && first_value_is(pairs, "secondaryID"@, secondary_id)
            ==> request_params(request) == Some((agent_id, secondary_id)),
{
    if first_value_is(pairs, "agentID"@, agent_id) {
        lemma_query_value_first(pairs, "agentID"@, agent_id);
    }
    if first_value_is(pairs, "secondaryID"@, secondary_id) {
        lemma_query_value_first(pairs, "secondaryID"@, secondary_id);
    }
}

/// The agent id and secondary id that an opening request names in the query
/// of its path (`agentID` and `secondaryID`), each empty where absent;
/// `None` where the request or its URL cannot be parsed.
pub open spec fn request_params(request: Seq<u8>) -> Option<(Seq<char>, Seq<char>)> {
    match http_request_path(request, 30) {
        None => None,
        Some(path) => match url_query_pairs("http://dummyhost"@ + path) {
            None => None,
            Some(pairs) => Some((query_value(pairs, "agentID"@), query_value(pairs, "secondaryID"@))),
        },
    }
}

/// The value of the first pair keyed `key`, or the empty text.
pub fn find_query_value(pairs: &Vec<(String, String)>, key: &str) -> (r: String)
    ensures
        r@ == query_value(pairs_view(pairs@), key@),
{
    let ghost all = pairs_view(pairs@);
    let n = pairs.len();
    let mut i: usize = 0;
    assert(all.skip(0) =~= all);
    while i < n
        invariant
            n == pairs@.len(),
            all == pairs_view(pairs@),
            i <= n,
            query_value(all, key@) == query_value(all.skip(i as int), key@),
        decreases n - i,
    {
        assert(all.skip(i as int)[0] == (pairs@[i as int].0@, pairs@[i as int].1@));
        if crate::text::same_text(pairs[i].0.as_str(), key) {
            return pairs[i].1.clone();
        }
        assert(all.skip(i as int).drop_first() =~= all.skip(i + 1));
        i = i + 1;
    }
    assert(all.skip(n as int).len() == 0);
    String::new()
}

/// The agent id and secondary id named in the query of an opening
/// request's path (`agentID` and `secondaryID`, each empty where absent). `None` where the request
/// has no path that `httparse` can parse, or where `http://dummyhost`
/// followed by that path is no URL.
pub fn generate_params_from_url(request: &[u8]) -> (r: Option<(String, String)>)
    ensures
        match r {
            Some((agent_id, secondary_id)) => request_params(request@) == Some((agent_id@, secondary_id@)),
            None => request_params(request@) is None,
        },
        r is Some <==> (http_request_path(request@, 30) matches Some(path) && url_query_pairs(
            "http://dummyhost"@ + path,
        ) is Some),
        r matches Some((agent_id, secondary_id)) ==> (http_request_path(request@, 30) matches Some(path)
            && url_query_pairs("http://dummyhost"@ + path) matches Some(pairs)
            && agent_id@ == query_value(pairs, "agentID"@) && secondary_id@ == query_value(pairs, "secondaryID"@)),
{
    let path = match request_path(request, 30) {
        Some(p) => p,
        None => {
            return None;
        },
    };
    let mut url = "http://dummyhost".to_owned();
    url.append(path.as_str());
    let pairs = match query_pairs(url.as_str()) {
        Some(v) => v,
        None => {
            return None;
        },
    };
    let agent_id = find_query_value(&pairs, "agentID");
    let secondary_id = find_query_value(&pairs, "secondaryID");
    Some((agent_id, secondary_id))
}

/// The stored record of a chat, which is also its key: the chat's call id
/// and the chatter `agent`.
pub open spec fn chat_record(call_id: Seq<char>) -> Map<Seq<char>, AttrView> {
    Map::empty().insert("CallID"@, AttrView::S(call_id)).insert("Chatter"@, AttrView::S("agent"@))
}

/// The stored record of the chat with call id `call_id`.
pub fn chat_record_item(call_id: &str) -> (r: DbItem)
    ensures
        r@ == chat_record(call_id@),
{
    let mut item = DbItem::new();
    item.insert("CallID".to_owned(), AttrValue::S(call_id.to_owned()));
    item.insert("Chatter".to_owned(), AttrValue::S("agent".to_owned()));
    item
}

/// The record to create for the chat with call id `call_id`: none where the
/// store already holds the chat, its record otherwise.
pub fn chat_record_to_create(call_id: &str, exists: bool) -> (r: Option<DbItem>)
    ensures
        match r {
            Some(item) => !exists && item@ == chat_record(call_id@),
            None => exists,
        },
{
    if exists {
        None
    } else {
        Some(chat_record_item(call_id))
    }
}

/// The messages that a list of records reads as, in order, leaving out the
/// records that fail to read.
pub open spec fn loaded_messages(items: Seq<Map<Seq<char>, AttrView>>) -> Seq<MessageTypeView>
    decreases items.len(),
{
    if items.len() == 0 {
        Seq::empty()
    } else {
        let rest = loaded_messages(items.drop_last());
        match read_message(items.last()) {
            Ok(v) => rest.push(v),
            Err(_) => rest,
        }
    }
}

/// The attribute names reported, in order, for the records that fail to
/// read.
pub open spec fn load_errors(items: Seq<Map<Seq<char>, AttrView>>) -> Seq<Seq<char>>
    decreases items.len(),
{
    if items.len() == 0 {
        Seq::empty()
    } else {
        let rest = load_errors(items.drop_last());
        match read_message(items.last()) {
            Ok(_) => rest,
            Err(a) => rest.push(a),
        }
    }
}

/// Every record either reads, and its message is kept, or fails, and its
/// error is kept: the messages and the errors together are as many as the
/// records.
pub proof fn lemma_loaded_counts(items: Seq<Map<Seq<char>, AttrView>>)
    ensures
        loaded_messages(items).len() + load_errors(items).len() == items.len(),
    decreases items.len(),
{
    if items.len() > 0 {
        lemma_loaded_counts(items.drop_last());
    }
}

/// The records before a given one load as a prefix of what all records load
/// as, and where that record reads, its message comes right after them.
pub proof fn lemma_loaded_in_order(items: Seq<Map<Seq<char>, AttrView>>, k: int)
    requires
        0 <= k < items.len(),
    ensures
        loaded_messages(items.take(k)).len() <= loaded_messages(items).len(),
        forall|j: int| 0 <= j < loaded_messages(items.take(k)).len() ==> #[trigger] loaded_messages(items)[j]
            == loaded_messages(items.take(k))[j],
        read_message(items[k]) matches Ok(v) ==> loaded_messages(items.take(k)).len() < loaded_messages(items).len()
            && loaded_messages(items)[loaded_messages(items.take(k)).len() as int] == v,
    decreases items.len(),
{
    let rest = items.drop_last();
    if k == items.len() - 1 {
        assert(items.take(k) =~= rest);
    } else {
        assert(rest.take(k) =~= items.take(k));
        lemma_loaded_in_order(rest, k);
    }
}

/// Where every record reads, the messages are those of the records, one
/// for one and in order, and there is no error.
pub proof fn lemma_all_read(items: Seq<Map<Seq<char>, AttrView>>)
    requires
        forall|k: int| 0 <= k < items.len() ==> #[trigger] read_message(items[k]) is Ok,
    ensures
        loaded_messages(items).len() == items.len(),
        load_errors(items).len() == 0,
        forall|k: int| 0 <= k < items.len() ==> #[trigger] read_message(items[k]) == Ok::<MessageTypeView, Seq<char>>(
            loaded_messages(items)[k],
        ),
    decreases items.len(),
{
    if items.len() > 0 {
        let rest = items.drop_last();
        assert forall|k: int| 0 <= k < rest.len() implies #[trigger] read_message(rest[k]) is Ok by {
            assert(rest[k] == items[k]);
        }
        lemma_all_read(rest);
        assert(read_message(items[items.len() - 1]) is Ok);
        assert forall|k: int| 0 <= k < items.len() implies #[trigger] read_message(items[k]) == Ok::<MessageTypeView, Seq<char>>(
            loaded_messages(items)[k],
        ) by {
            if k < items.len() - 1 {
                assert(rest[k] == items[k]);
            }
        }
    }
}

/// The contents of a list of records.
pub open spec fn items_view(items: Seq<DbItem>) -> Seq<Map<Seq<char>, AttrView>> {
    items.map_values(|d: DbItem| d@)
}

/// Reads a chat's stored records: the messages that read, in order, and the
/// errors of those that do not, in order.
pub fn messages_from_items(items: Vec<DbItem>) -> (r: (Vec<MessageType>, Vec<MessageError>))
    ensures
        r.0@.map_values(|m: MessageType| m@) == loaded_messages(items_view(items@)),
        r.1@.len() == load_errors(items_view(items@)).len(),
        r.0@.len() + r.1@.len() == items@.len(),
        forall|k: int| 0 <= k < r.1@.len() ==> (#[trigger] r.1@[k] matches MessageError::InvalidAttribute(e) && e@ == load_errors(items_view(items@))[k]),
{
    let ghost all = items_view(items@);
    let len = items.len();
    let ghost n = items@.len();
    let mut msgs: Vec<MessageType> = Vec::new();
    let mut errs: Vec<MessageError> = Vec::new();
    let mut idx: usize = 0;
    for item in it: items
        invariant
            n == items@.len(),
            len == n,
            all == items_view(items@),
            idx == it.index(),
            it.seq() == items@,
            msgs@.map_values(|m: MessageType| m@) == loaded_messages(all.take(idx as int)),
            errs@.len() == load_errors(all.take(idx as int)).len(),
            forall|k: int| 0 <= k < errs@.len() ==> (#[trigger] errs@[k] matches MessageError::InvalidAttribute(e) && e@ == load_errors(all.take(idx as int))[k]),
    {
        let ghost before = all.take(idx as int);
        let ghost now = all.take(idx + 1);
        assert(now.drop_last() =~= before);
        assert(now.last() == items@[idx as int]@);
        assert(item == items@[idx as int]);
        match MessageType::from_db_item(item) {
            Ok(m) => {
                msgs.push(m);
                assert(msgs@.map_values(|m: MessageType| m@) =~= loaded_messages(now));
            },
            Err(e) => {
                errs.push(e);
                assert(msgs@.map_values(|m: MessageType| m@) =~= loaded_messages(now));
            },
        }
        idx = idx + 1;
    }
    assert(all.take(n as int) =~= all);
    proof {
        lemma_loaded_counts(all);
    }
    (msgs, errs)
}

} // verus!
