//! Session keys: from the session header, or from how the conversation opens.

use std::collections::hash_map::DefaultHasher;
use std::hash::Hasher;

use vstd::bytes::{
    lemma_auto_spec_u64_to_from_le_bytes, spec_u64_from_le_bytes, spec_u64_to_le_bytes,
    u64_to_le_bytes,
};
use vstd::prelude::*;
use vstd::std_specs::hash::DefaultHasherAdditionalSpecFns;
use vstd::string::{StringExecFns, StringSliceAdditionalSpecFns};
use vstd::utf8::{encode_utf8, encode_utf8_decode_utf8, is_ascii_chars};

use crate::headers::{
    ascii_text, header_bytes, header_fields, header_get, header_text, is_visible,
};
use crate::json::{trees, Json, JsonTree};
use crate::store::SessionKey;
use crate::text::{
    hex, hex_text, hex_value, join, law_hex_text_is_injective, law_hex_text_stands_for_its_number,
    text_eq, truncate_chars, truncated,
};

verus! {

/// Header that names the session when it is present and not blank.
pub const SESSION_ID_HEADER: &'static str = "x-switchyard-session-id";

/// Most characters of the session header that count.
pub const SESSION_ID_LIMIT: usize = 256;

// ---------------------------------------------------------------------------
// Session header
// ---------------------------------------------------------------------------

/// White space among the ASCII characters.
pub open spec fn is_ascii_space(c: char) -> bool {
    c == ' ' || '\t' <= c <= '\r'
}

/// `text` without leading white space.
pub open spec fn trim_start(text: Seq<char>) -> Seq<char>
    decreases text.len(),
{
    if text.len() > 0 && is_ascii_space(text[0]) {
        trim_start(text.skip(1))
    } else {
        text
    }
}

/// `text` without trailing white space.
pub open spec fn trim_end(text: Seq<char>) -> Seq<char>
    decreases text.len(),
{
    if text.len() > 0 && is_ascii_space(text.last()) {
        trim_end(text.drop_last())
    } else {
        text
    }
}

/// `str::trim` removes leading and trailing white space. Among ASCII characters
/// that is the space and the controls from tab to carriage return; what it
/// removes from other text is left unsaid.
pub assume_specification[ str::trim ](text: &str) -> (res: &str)
    ensures
        is_ascii_chars(text@) ==> res@ == trim_end(trim_start(text@)),
;

/// Key that a session header with this text gives.
pub open spec fn header_text_key(text: Seq<char>) -> Option<Seq<char>> {
    let name = trim_end(trim_start(text));
    if name.len() > 0 {
        Some("h:"@ + truncated(name, SESSION_ID_LIMIT as nat))
    } else {
        None
    }
}

/// Key that a session header with these bytes gives.
pub open spec fn header_key(bytes: Seq<u8>) -> Option<Seq<char>> {
    if is_visible(bytes) {
        header_text_key(ascii_text(bytes))
    } else {
        None
    }
}

/// Key of a session header whose text is known.
pub fn session_key_from_header(text: &str) -> (key: Option<SessionKey>)
    requires
        is_ascii_chars(text@),
    ensures
        match key {
            Some(key) => header_text_key(text@) == Some(key@),
            None => header_text_key(text@) is None,
        },
{
    let name = text.trim();
    if name.is_empty() {
        return None;
    }
    Some(SessionKey { inner: join("h:", truncate_chars(name, SESSION_ID_LIMIT).as_str()) })
}

/// Key that the session header among these headers gives.
pub open spec fn header_key_in(fields: Map<Seq<char>, Seq<u8>>) -> Option<Seq<char>> {
    if fields.contains_key(SESSION_ID_HEADER@) {
        header_key(fields[SESSION_ID_HEADER@])
    } else {
        None
    }
}

/// The session header as a key, when it is present and not blank.
pub fn header_session_key(headers: &http::HeaderMap) -> (key: Option<SessionKey>)
    ensures
        match key {
            Some(key) => header_key_in(header_fields(*headers)) == Some(key@),
            None => header_key_in(header_fields(*headers)) is None,
        },
{
    proof {
        reveal_strlit("x-switchyard-session-id");
    }
    let value = match header_get(headers, SESSION_ID_HEADER) {
        Some(value) => value,
        None => {
            return None;
        },
    };
    let raw = match header_text(value) {
        Some(raw) => raw,
        None => {
            return None;
        },
    };
    assert(is_ascii_chars(raw@)) by {
        let bytes = header_bytes(*value);
        assert forall|i: int| 0 <= i < raw@.len() implies (raw@[i] as nat) < 0x80 by {
            assert(raw@[i] == bytes[i] as char);
        }
    }
    session_key_from_header(raw.as_str())
}

// ---------------------------------------------------------------------------
// Message texts
// ---------------------------------------------------------------------------

/// Text of one content part.
pub open spec fn part_text(part: JsonTree) -> Option<Seq<char>> {
    part.text_field("text"@)
}

/// Whether some part has a text.
pub open spec fn has_part_text(parts: Seq<JsonTree>) -> bool {
    exists|i: int| 0 <= i < parts.len() && part_text(#[trigger] parts[i]) is Some
}

/// The texts of the parts, one after the other.
pub open spec fn joined_parts(parts: Seq<JsonTree>) -> Seq<char>
    decreases parts.len(),
{
    if parts.len() == 0 {
        Seq::empty()
    } else {
        match part_text(parts.last()) {
            Some(text) => joined_parts(parts.drop_last()) + text,
            None => joined_parts(parts.drop_last()),
        }
    }
}

/// Text of a message's content: a string, or the texts of its parts joined.
pub open spec fn content_text_of(content: JsonTree) -> Option<Seq<char>> {
    match content {
        JsonTree::Text(text) => Some(text),
        JsonTree::Array(parts) => if has_part_text(parts) {
            Some(joined_parts(parts))
        } else {
            None
        },
        _ => None,
    }
}

/// Text of a message, when it has this role.
pub open spec fn message_text(message: JsonTree, role: Seq<char>) -> Option<Seq<char>> {
    if message.text_field("role"@) == Some(role) {
        match message.field("content"@) {
            Some(content) => content_text_of(content),
            None => None,
        }
    } else {
        None
    }
}

/// Text of the first message with this role that has one.
pub open spec fn first_text(messages: Seq<JsonTree>, role: Seq<char>) -> Option<Seq<char>>
    decreases messages.len(),
{
    if messages.len() == 0 {
        None
    } else {
        match message_text(messages[0], role) {
            Some(text) => Some(text),
            None => first_text(messages.skip(1), role),
        }
    }
}

/// Text of the first message with this role whose text is not empty.
pub open spec fn first_filled_text(messages: Seq<JsonTree>, role: Seq<char>) -> Option<Seq<char>>
    decreases messages.len(),
{
    if messages.len() == 0 {
        None
    } else {
        match message_text(messages[0], role) {
            Some(text) => if text.len() > 0 {
                Some(text)
            } else {
                first_filled_text(messages.skip(1), role)
            },
            None => first_filled_text(messages.skip(1), role),
        }
    }
}

/// String content, or the joined texts of a content array.
pub fn content_text(content: &Json) -> (text: Option<String>)
    ensures
        match text {
            Some(text) => content_text_of(content@) == Some(text@),
            None => content_text_of(content@) is None,
        },
{
    if let Some(text) = content.as_text() {
        return Some(text.to_owned());
    }
    let parts = match content.as_array() {
        Some(parts) => parts,
        None => {
            return None;
        },
    };
    let ghost all = trees(parts@);
    let mut joined = String::new();
    let mut found: bool = false;
    let mut i: usize = 0;
    while i < parts.len()
        invariant
            i <= parts.len(),
            all == trees(parts@),
            joined@ == joined_parts(all.take(i as int)),
            found == has_part_text(all.take(i as int)),
        decreases parts.len() - i,
    {
        let ghost seen = all.take(i + 1);
        assert(seen.drop_last() =~= all.take(i as int));
        assert(seen.last() == parts@[i as int]@);
        if let Some(text) = parts[i].get_text("text") {
            joined.append(text);
            found = true;
            assert(part_text(seen[i as int]) is Some);
        } else {
            proof {
                let before = all.take(i as int);
                assert forall|k: int|
                    0 <= k < seen.len() && part_text(#[trigger] seen[k]) is Some implies found by {
                    assert(seen[k] == before[k]);
                }
                if found {
                    let k = choose|k: int|
                        0 <= k < before.len() && part_text(#[trigger] before[k]) is Some;
                    assert(part_text(seen[k]) is Some);
                }
            }
        }
        i = i + 1;
    }
    assert(all.take(i as int) =~= all);
    if found {
        Some(joined)
    } else {
        None
    }
}

/// Text of one chat message when its role matches.
pub fn message_text_if_role(message: &Json, role: &str) -> (text: Option<String>)
    ensures
        match text {
            Some(text) => message_text(message@, role@) == Some(text@),
            None => message_text(message@, role@) is None,
        },
{
    match message.get_text("role") {
        Some(actual) => if !text_eq(actual, role) {
            return None;
        },
        None => {
            return None;
        },
    }
    match message.get("content") {
        Some(content) => content_text(content),
        None => None,
    }
}

/// Text of the first message with this role that has one.
pub fn first_role_text(messages: &Vec<Json>, role: &str) -> (text: Option<String>)
    ensures
        match text {
            Some(text) => first_text(trees(messages@), role@) == Some(text@),
            None => first_text(trees(messages@), role@) is None,
        },
{
    let ghost all = trees(messages@);
    assert(all.skip(0) =~= all);
    let mut i: usize = 0;
    while i < messages.len()
        invariant
            i <= messages.len(),
            all == trees(messages@),
            first_text(all, role@) == first_text(all.skip(i as int), role@),
        decreases messages.len() - i,
    {
        assert(all.skip(i as int)[0] == messages@[i as int]@);
        if let Some(text) = message_text_if_role(&messages[i], role) {
            return Some(text);
        }
        assert(all.skip(i as int).skip(1) =~= all.skip(i + 1));
        i = i + 1;
    }
    None
}

/// Text of the first message with this role whose text is not empty.
pub fn first_filled_role_text(messages: &Vec<Json>, role: &str) -> (text: Option<String>)
    ensures
        match text {
            Some(text) => first_filled_text(trees(messages@), role@) == Some(text@),
            None => first_filled_text(trees(messages@), role@) is None,
        },
{
    let ghost all = trees(messages@);
    assert(all.skip(0) =~= all);
    let mut i: usize = 0;
    while i < messages.len()
        invariant
            i <= messages.len(),
            all == trees(messages@),
            first_filled_text(all, role@) == first_filled_text(all.skip(i as int), role@),
        decreases messages.len() - i,
    {
        assert(all.skip(i as int)[0] == messages@[i as int]@);
        if let Some(text) = message_text_if_role(&messages[i], role) {
            if !text.as_str().is_empty() {
                return Some(text);
            }
        }
        assert(all.skip(i as int).skip(1) =~= all.skip(i + 1));
        i = i + 1;
    }
    None
}

// ---------------------------------------------------------------------------
// Opening key
// ---------------------------------------------------------------------------

/// The order in which a machine lays out the bytes of a number.
#[derive(Debug, Clone, Copy, PartialEq, Eq, Structural)]
pub enum ByteOrder {
    /// Least significant byte first.
    Little,
    /// Most significant byte first.
    Big,
}

/// The bytes of a length in one order.
pub open spec fn len_bytes(len: u64, order: ByteOrder) -> Seq<u8> {
    match order {
        ByteOrder::Little => spec_u64_to_le_bytes(len),
        ByteOrder::Big => spec_u64_to_le_bytes(len).reverse(),
    }
}

/// One length-prefixed write, appended to what a hasher has seen.
pub open spec fn prefixed_write(
    seen: Seq<Seq<u8>>,
    bytes: Seq<u8>,
    order: ByteOrder,
) -> Seq<Seq<u8>> {
    seen.push(len_bytes(bytes.len() as u64, order)).push(bytes)
}

/// What is hashed for a conversation with this system prompt and opening user message.
pub open spec fn opening_writes(
    system: Seq<char>,
    user: Seq<char>,
    order: ByteOrder,
) -> Seq<Seq<u8>> {
    prefixed_write(
        prefixed_write(Seq::empty(), encode_utf8(system), order),
        encode_utf8(user),
        order,
    )
}

/// The opening of a conversation: its system prompt, empty where there is none,
/// and its first user message that is not empty.
pub open spec fn opening(body: JsonTree) -> Option<(Seq<char>, Seq<char>)> {
    match body.field("messages"@) {
        Some(JsonTree::Array(messages)) => match first_filled_text(messages, "user"@) {
            Some(user) => match first_text(messages, "system"@) {
                Some(system) => Some((system, user)),
                None => Some((Seq::empty(), user)),
            },
            None => None,
        },
        _ => None,
    }
}

/// Key of an opening: the hash of what is written for it, in hexadecimal.
pub open spec fn opening_key(system: Seq<char>, user: Seq<char>, order: ByteOrder) -> Seq<char> {
    "o:"@ + hex_text(DefaultHasher::spec_finish(opening_writes(system, user, order)) as nat, 16)
}

/// Key that the opening of this body gives.
pub open spec fn opening_key_in(body: JsonTree, order: ByteOrder) -> Option<Seq<char>> {
    match opening(body) {
        Some((system, user)) => Some(opening_key(system, user, order)),
        None => None,
    }
}

/// Writes the length and then the bytes, so that adjacent fields cannot alias.
/// The length is written as the machine lays it out.
pub fn write_len_prefixed(hasher: &mut DefaultHasher, bytes: &[u8], order: ByteOrder)
    ensures
        final(hasher)@ == prefixed_write(old(hasher)@, bytes@, order),
{
    let len: u64 = bytes.len() as u64;
    let prefix = ordered_bytes(len, order);
    hasher.write(prefix.as_slice());
    hasher.write(bytes);
}

/// The bytes of a length in one order.
fn ordered_bytes(len: u64, order: ByteOrder) -> (bytes: Vec<u8>)
    ensures
        bytes@ == len_bytes(len, order),
{
    let little = u64_to_le_bytes(len);
    match order {
        ByteOrder::Little => little,
        ByteOrder::Big => {
            proof {
                lemma_auto_spec_u64_to_from_le_bytes();
            }
            let mut big: Vec<u8> = Vec::new();
            let mut left: usize = little.len();
            while left > 0
                invariant
                    left <= little@.len(),
                    big@ == little@.skip(left as int).reverse(),
                decreases left,
            {
                left = left - 1;
                big.push(little[left]);
                assert(big@ =~= little@.skip(left as int).reverse());
            }
            assert(little@.skip(0) =~= little@);
            big
        },
    }
}

/// Hashes the system prompt, if any, and the first non-empty user message.
pub fn opening_session_key(body: &Json, order: ByteOrder) -> (key: Option<SessionKey>)
    ensures
        match key {
            Some(key) => opening_key_in(body@, order) == Some(key@),
            None => opening_key_in(body@, order) is None,
        },
{
    let messages = match body.get("messages") {
        Some(value) => match value.as_array() {
            Some(messages) => messages,
            None => {
                return None;
            },
        },
        None => {
            return None;
        },
    };
    let user = match first_filled_role_text(messages, "user") {
        Some(user) => user,
        None => {
            return None;
        },
    };
    let system = match first_role_text(messages, "system") {
        Some(system) => system,
        None => String::new(),
    };
    let mut hasher = DefaultHasher::new();
    write_len_prefixed(&mut hasher, system.as_str().as_bytes(), order);
    write_len_prefixed(&mut hasher, user.as_str().as_bytes(), order);
    let digest: u64 = hasher.finish();
    Some(SessionKey { inner: join("o:", hex(digest, 16).as_str()) })
}

/// Key of a request: its session header, else its opening.
pub open spec fn request_key(
    fields: Map<Seq<char>, Seq<u8>>,
    body: JsonTree,
    order: ByteOrder,
) -> Option<Seq<char>> {
    match header_key_in(fields) {
        Some(key) => Some(key),
        None => opening_key_in(body, order),
    }
}

/// The session header if it is not blank, else the hash of the opening.
pub fn session_key_from_request(
    headers: &http::HeaderMap,
    body: &Json,
    order: ByteOrder,
) -> (key: Option<SessionKey>)
    ensures
        match key {
            Some(key) => request_key(header_fields(*headers), body@, order) == Some(key@),
            None => request_key(header_fields(*headers), body@, order) is None,
        },
{
    match header_session_key(headers) {
        Some(key) => Some(key),
        None => opening_session_key(body, order),
    }
}

// ---------------------------------------------------------------------------
// Laws
// ---------------------------------------------------------------------------

/// A usable session header decides the key alone; a blank one, like an absent
/// one, leaves it to the opening.
pub proof fn law_header_wins(
    fields: Map<Seq<char>, Seq<u8>>,
    bytes: Seq<u8>,
    body: JsonTree,
    other: JsonTree,
    order: ByteOrder,
)
    ensures
        ({
            let named = fields.insert(SESSION_ID_HEADER@, bytes);
            &&& header_key(bytes) is Some ==> request_key(named, body, order) == header_key(bytes)
                && request_key(named, body, order) == request_key(named, other, order)
            &&& header_key(bytes) is None ==> request_key(named, body, order) == request_key(
                fields.remove(SESSION_ID_HEADER@),
                body,
                order,
            ) && request_key(named, body, order) == opening_key_in(body, order)
        }),
{
}

/// No header names the session of an opening: the two kinds of key never meet.
pub proof fn law_key_kinds_are_disjoint(
    bytes: Seq<u8>,
    system: Seq<char>,
    user: Seq<char>,
    order: ByteOrder,
)
    ensures
        header_key(bytes) != Some(opening_key(system, user, order)),
{
    reveal_strlit("h:");
    reveal_strlit("o:");
    if let Some(key) = header_key(bytes) {
        assert(key[0] == 'h');
        assert(opening_key(system, user, order)[0] == 'o');
    }
}

/// Header keys keep at most [`SESSION_ID_LIMIT`] characters of the header.
pub proof fn law_header_key_is_bounded(bytes: Seq<u8>)
    ensures
        header_key(bytes) matches Some(key) ==> 2 < key.len() <= 2 + SESSION_ID_LIMIT,
{
    reveal_strlit("h:");
}

/// The first text of two lists after one another is that of the first list, if
/// it has one.
pub proof fn lemma_first_text_of_concat(
    messages: Seq<JsonTree>,
    extra: Seq<JsonTree>,
    role: Seq<char>,
)
    ensures
        first_text(messages + extra, role) == (match first_text(messages, role) {
            Some(text) => Some(text),
            None => first_text(extra, role),
        }),
        first_filled_text(messages + extra, role) == (match first_filled_text(messages, role) {
            Some(text) => Some(text),
            None => first_filled_text(extra, role),
        }),
    decreases messages.len(),
{
    if messages.len() == 0 {
        assert(messages + extra =~= extra);
    } else {
        assert((messages + extra)[0] == messages[0]);
        assert((messages + extra).skip(1) =~= messages.skip(1) + extra);
        lemma_first_text_of_concat(messages.skip(1), extra, role);
    }
}

/// Later turns keep the key of the conversation: messages after the opening do
/// not change it, as long as none of them brings in a first system prompt.
pub proof fn law_later_turns_keep_the_key(
    turn: JsonTree,
    later: JsonTree,
    messages: Seq<JsonTree>,
    extra: Seq<JsonTree>,
    order: ByteOrder,
)
    requires
        turn.field("messages"@) == Some(JsonTree::Array(messages)),
        later.field("messages"@) == Some(JsonTree::Array(messages + extra)),
        first_filled_text(messages, "user"@) is Some,
        first_text(messages, "system"@) is Some || first_text(extra, "system"@) is None,
    ensures
        opening_key_in(later, order) == opening_key_in(turn, order),
{
    lemma_first_text_of_concat(messages, extra, "user"@);
    lemma_first_text_of_concat(messages, extra, "system"@);
}

/// Messages without a user's text and without a system prompt do not count: a
/// conversation that starts with empty user messages has the key of what follows.
pub proof fn law_empty_user_messages_do_not_count(
    body: JsonTree,
    bare: JsonTree,
    messages: Seq<JsonTree>,
    rest: Seq<JsonTree>,
    order: ByteOrder,
)
    requires
        body.field("messages"@) == Some(JsonTree::Array(messages + rest)),
        bare.field("messages"@) == Some(JsonTree::Array(rest)),
        first_filled_text(messages, "user"@) is None,
        first_text(messages, "system"@) is None,
    ensures
        opening_key_in(body, order) == opening_key_in(bare, order),
{
    lemma_first_text_of_concat(messages, rest, "user"@);
    lemma_first_text_of_concat(messages, rest, "system"@);
}

/// Text parts count like the single string they join to.
pub proof fn law_text_parts_read_as_one_string(
    split: JsonTree,
    whole: JsonTree,
    parts: Seq<JsonTree>,
    role: Seq<char>,
)
    requires
        split.field("role"@) == whole.field("role"@),
        split.field("content"@) == Some(JsonTree::Array(parts)),
        whole.field("content"@) == Some(JsonTree::Text(joined_parts(parts))),
        has_part_text(parts),
    ensures
        message_text(split, role) == message_text(whole, role),
{
}

/// A body has an opening key exactly when some user message in it has a text
/// that is not empty.
pub proof fn law_opening_needs_a_user_text(
    body: JsonTree,
    messages: Seq<JsonTree>,
    order: ByteOrder,
)
    requires
        body.field("messages"@) == Some(JsonTree::Array(messages)),
    ensures
        opening_key_in(body, order) is Some <==> exists|i: int|
            0 <= i < messages.len() && has_filled_text(#[trigger] messages[i], "user"@),
{
    lemma_filled_text_exists(messages, "user"@);
}

/// Whether a message has this role and a text that is not empty.
pub open spec fn has_filled_text(message: JsonTree, role: Seq<char>) -> bool {
    message_text(message, role) matches Some(text) && text.len() > 0
}

proof fn lemma_filled_text_exists(messages: Seq<JsonTree>, role: Seq<char>)
    ensures
        first_filled_text(messages, role) is Some <==> exists|i: int|
            0 <= i < messages.len() && has_filled_text(#[trigger] messages[i], role),
    decreases messages.len(),
{
    if messages.len() > 0 {
        let rest = messages.skip(1);
        lemma_filled_text_exists(rest, role);
        if has_filled_text(messages[0], role) {
        } else if first_filled_text(rest, role) is Some {
            let i = choose|i: int|
                0 <= i < rest.len() && has_filled_text(#[trigger] rest[i], role);
            assert(has_filled_text(messages[i + 1], role));
        } else {
            assert forall|i: int| 0 <= i < messages.len() implies !has_filled_text(
                #[trigger] messages[i],
                role,
            ) by {
                if i > 0 {
                    assert(messages[i] == rest[i - 1]);
                }
            }
        }
    }
}

/// All bytes that are hashed for an opening, in order.
pub open spec fn opening_bytes(
    system: Seq<char>,
    user: Seq<char>,
    order: ByteOrder,
) -> Seq<u8> {
    let writes = opening_writes(system, user, order);
    writes[0] + writes[1] + writes[2] + writes[3]
}

/// Different openings are hashed as different byte strings: moving characters
/// between system prompt and user message changes the input of the hash.
pub proof fn law_openings_do_not_alias(
    system: Seq<char>,
    user: Seq<char>,
    other_system: Seq<char>,
    other_user: Seq<char>,
    order: ByteOrder,
)
    requires
        encode_utf8(system).len() <= u64::MAX,
        encode_utf8(other_system).len() <= u64::MAX,
        opening_bytes(system, user, order) == opening_bytes(other_system, other_user, order),
    ensures
        system == other_system,
        user == other_user,
{
    lemma_auto_spec_u64_to_from_le_bytes();
    let (s, u) = (encode_utf8(system), encode_utf8(user));
    let (t, v) = (encode_utf8(other_system), encode_utf8(other_user));
    let prefix_s = len_bytes(s.len() as u64, order);
    let prefix_t = len_bytes(t.len() as u64, order);
    let prefix_u = len_bytes(u.len() as u64, order);
    let prefix_v = len_bytes(v.len() as u64, order);
    let left = opening_bytes(system, user, order);
    let right = opening_bytes(other_system, other_user, order);
    assert(left == prefix_s + s + prefix_u + u);
    assert(right == prefix_t + t + prefix_v + v);
    assert(left.take(8) =~= prefix_s);
    assert(right.take(8) =~= prefix_t);
    assert(s.len() == t.len()) by {
        let little_s = spec_u64_to_le_bytes(s.len() as u64);
        let little_t = spec_u64_to_le_bytes(t.len() as u64);
        assert(little_s =~= little_s.reverse().reverse());
        assert(little_t =~= little_t.reverse().reverse());
        assert(little_s == little_t);
        assert(spec_u64_from_le_bytes(little_s) == s.len() as u64);
        assert(spec_u64_from_le_bytes(little_t) == t.len() as u64);
    }
    let at = 8 + s.len() as int;
    assert(left.subrange(8, at) =~= s);
    assert(right.subrange(8, at) =~= t);
    assert(left.skip(at + 8) =~= u);
    assert(right.skip(at + 8) =~= v);
    encode_utf8_decode_utf8(system);
    encode_utf8_decode_utf8(other_system);
    encode_utf8_decode_utf8(user);
    encode_utf8_decode_utf8(other_user);
}

/// Two openings share a key exactly when their hashes are equal.
pub proof fn law_opening_keys_are_hashes(
    system: Seq<char>,
    user: Seq<char>,
    other_system: Seq<char>,
    other_user: Seq<char>,
    order: ByteOrder,
)
    ensures
        opening_key(system, user, order) == opening_key(other_system, other_user, order)
            <==> DefaultHasher::spec_finish(opening_writes(system, user, order))
            == DefaultHasher::spec_finish(opening_writes(other_system, other_user, order)),
{
    let left = DefaultHasher::spec_finish(opening_writes(system, user, order));
    let right = DefaultHasher::spec_finish(opening_writes(other_system, other_user, order));
    if opening_key(system, user, order) == opening_key(other_system, other_user, order) {
        let prefix = "o:"@;
        assert((prefix + hex_text(left as nat, 16)).skip(prefix.len() as int) =~= hex_text(
            left as nat,
            16,
        ));
        assert((prefix + hex_text(right as nat, 16)).skip(prefix.len() as int) =~= hex_text(
            right as nat,
            16,
        ));
        law_hex_text_is_injective(left, right);
    }
}

/// Trimming takes white space from both ends and nothing else: what is left lies
/// between two positions, only white space stands outside them, and it neither
/// starts nor ends with any. White space is the space and the five controls from
/// tab to carriage return.
pub proof fn law_trimming_takes_only_white_space(text: Seq<char>) -> (cut: (int, int))
    ensures
        0 <= cut.0 <= cut.1 <= text.len(),
        trim_end(trim_start(text)) == text.subrange(cut.0, cut.1),
        forall|i: int|
            0 <= i < cut.0 || cut.1 <= i < text.len() ==> (#[trigger] text[i] as int == 32 || 9
                <= text[i] as int <= 13),
        cut.0 < cut.1 ==> text[cut.0] as int != 32 && !(9 <= text[cut.0] as int <= 13),
        cut.0 < cut.1 ==> text[cut.1 - 1] as int != 32 && !(9 <= text[cut.1 - 1] as int <= 13),
{
    let from = lemma_trim_start(text);
    let rest = text.skip(from);
    let to = lemma_trim_end(rest);
    assert(rest.take(to) =~= text.subrange(from, from + to));
    assert forall|i: int| from + to <= i < text.len() implies is_ascii_space(#[trigger] text[i]) by {
        assert(rest[i - from] == text[i]);
    }
    if to > 0 {
        assert(rest[to - 1] == text[from + to - 1]);
    }
    (from, from + to)
}

proof fn lemma_trim_start(text: Seq<char>) -> (from: int)
    ensures
        0 <= from <= text.len(),
        trim_start(text) == text.skip(from),
        forall|i: int| 0 <= i < from ==> is_ascii_space(#[trigger] text[i]),
        from < text.len() ==> !is_ascii_space(text[from]),
    decreases text.len(),
{
    if text.len() > 0 && is_ascii_space(text[0]) {
        let rest = text.skip(1);
        let from = lemma_trim_start(rest);
        assert(rest.skip(from) =~= text.skip(from + 1));
        assert forall|i: int| 0 <= i < from + 1 implies is_ascii_space(#[trigger] text[i]) by {
            if i > 0 {
                assert(rest[i - 1] == text[i]);
            }
        }
        from + 1
    } else {
        assert(text.skip(0) =~= text);
        0
    }
}

proof fn lemma_trim_end(text: Seq<char>) -> (to: int)
    ensures
        0 <= to <= text.len(),
        trim_end(text) == text.take(to),
        forall|i: int| to <= i < text.len() ==> is_ascii_space(#[trigger] text[i]),
        to > 0 ==> !is_ascii_space(text[to - 1]),
    decreases text.len(),
{
    if text.len() > 0 && is_ascii_space(text.last()) {
        let rest = text.drop_last();
        let to = lemma_trim_end(rest);
        assert(rest.take(to) =~= text.take(to));
        assert forall|i: int| to <= i < text.len() implies is_ascii_space(#[trigger] text[i]) by {
            if i < rest.len() {
                assert(rest[i] == text[i]);
            }
        }
        to
    } else {
        assert(text.take(text.len() as int) =~= text);
        text.len() as int
    }
}

/// The key of a session header is `h:` and the header's text between its white
/// space, the first 256 characters of it; a blank header gives none.
pub proof fn law_header_key_is_the_trimmed_text(text: Seq<char>) -> (cut: (int, int))
    ensures
        0 <= cut.0 <= cut.1 <= text.len(),
        forall|i: int|
            0 <= i < cut.0 || cut.1 <= i < text.len() ==> (#[trigger] text[i] as int == 32 || 9
                <= text[i] as int <= 13),
        cut.0 < cut.1 ==> text[cut.0] as int != 32 && !(9 <= text[cut.0] as int <= 13),
        cut.0 < cut.1 ==> text[cut.1 - 1] as int != 32 && !(9 <= text[cut.1 - 1] as int <= 13),
        cut.0 == cut.1 <==> header_text_key(text) is None,
        header_text_key(text) matches Some(key) ==> key == "h:"@ + text.subrange(
            cut.0,
            if cut.1 - cut.0 <= 256 {
                cut.1
            } else {
                cut.0 + 256
            },
        ),
{
    let cut = law_trimming_takes_only_white_space(text);
    let name = text.subrange(cut.0, cut.1);
    if name.len() > 256 {
        assert(name.take(256) =~= text.subrange(cut.0, cut.0 + 256));
    }
    cut
}

/// A header counts exactly where all its bytes are visible ASCII, spaces or
/// tabs, and is read byte for byte.
pub proof fn law_header_bytes_are_read_as_text(bytes: Seq<u8>, text: Seq<char>)
    requires
        text.len() == bytes.len(),
        forall|i: int| 0 <= i < bytes.len() ==> #[trigger] text[i] as int == bytes[i] as int,
    ensures
        (forall|i: int| 0 <= i < bytes.len() ==> (32 <= #[trigger] bytes[i] < 127 || bytes[i] == 9))
            ==> header_key(bytes) == header_text_key(text),
        (exists|i: int|
            0 <= i < bytes.len() && !(32 <= #[trigger] bytes[i] < 127 || bytes[i] == 9))
            ==> header_key(bytes) is None,
{
    if is_visible(bytes) {
        assert(ascii_text(bytes) =~= text) by {
            assert forall|i: int| 0 <= i < bytes.len() implies #[trigger] ascii_text(bytes)[i]
                == text[i] by {
                assert(text[i] as int == bytes[i] as int);
                assert(ascii_text(bytes)[i] as int == bytes[i] as int);
            }
        }
    }
}

/// The session is named by the header `x-switchyard-session-id` and by no other
/// one; without a key from it the opening names the session.
pub proof fn law_only_the_session_header_names_the_session(
    fields: Map<Seq<char>, Seq<u8>>,
    body: JsonTree,
    order: ByteOrder,
)
    ensures
        header_key_in(fields) == if fields.contains_key("x-switchyard-session-id"@) {
            header_key(fields["x-switchyard-session-id"@])
        } else {
            None
        },
        header_key_in(fields) is Some ==> request_key(fields, body, order) == header_key_in(fields),
        header_key_in(fields) is None ==> request_key(fields, body, order) == opening_key_in(
            body,
            order,
        ),
{
}

/// The texts of parts are joined in order, each in full: joining goes along with
/// putting lists of parts together, a text part joins to its text, and a part
/// without a text to nothing.
pub proof fn law_parts_are_joined_in_full(
    left: Seq<JsonTree>,
    right: Seq<JsonTree>,
    part: JsonTree,
    text: Seq<char>,
)
    ensures
        joined_parts(left + right) == joined_parts(left) + joined_parts(right),
        joined_parts(Seq::empty()) == Seq::<char>::empty(),
        part.field("text"@) == Some(JsonTree::Text(text)) ==> joined_parts(seq![part]) == text,
        !(part.field("text"@) matches Some(JsonTree::Text(_))) ==> joined_parts(seq![part])
            == Seq::<char>::empty(),
        has_part_text(left) <==> exists|i: int|
            0 <= i < left.len() && ((#[trigger] left[i]).field("text"@) matches Some(
                JsonTree::Text(_),
            )),
    decreases right.len(),
{
    assert(seq![part].drop_last() =~= Seq::empty());
    assert(seq![part].last() == part);
    assert(joined_parts(seq![part].drop_last()) =~= Seq::empty());
    if part.field("text"@) == Some(JsonTree::Text(text)) {
        assert(joined_parts(seq![part]) =~= text);
    }
    if right.len() == 0 {
        assert(left + right =~= left);
        assert(joined_parts(left) + joined_parts(right) =~= joined_parts(left));
    } else {
        law_parts_are_joined_in_full(left, right.drop_last(), part, text);
        assert((left + right).drop_last() =~= left + right.drop_last());
        assert((left + right).last() == right.last());
        assert(joined_parts(left + right) =~= joined_parts(left) + joined_parts(right));
    }
    if has_part_text(left) {
        let i = choose|i: int| 0 <= i < left.len() && part_text(#[trigger] left[i]) is Some;
        assert(left[i].field("text"@) matches Some(JsonTree::Text(_)));
    }
    if exists|i: int|
        0 <= i < left.len() && ((#[trigger] left[i]).field("text"@) matches Some(
            JsonTree::Text(_),
        )) {
        let i = choose|i: int|
            0 <= i < left.len() && ((#[trigger] left[i]).field("text"@) matches Some(
                JsonTree::Text(_),
            ));
        assert(part_text(left[i]) is Some);
    }
}

/// Content that is a string is read in full, content that is an array as all the
/// texts of its parts, where it has any; other content has no text.
pub proof fn law_content_is_read_in_full(content: JsonTree, text: Seq<char>, parts: Seq<JsonTree>)
    ensures
        content_text_of(JsonTree::Text(text)) == Some(text),
        content_text_of(JsonTree::Array(parts)) == if exists|i: int|
            0 <= i < parts.len() && ((#[trigger] parts[i]).field("text"@) matches Some(
                JsonTree::Text(_),
            )) {
            Some(joined_parts(parts))
        } else {
            None
        },
        !(content is Text) && !(content is Array) ==> content_text_of(content) is None,
{
    law_parts_are_joined_in_full(parts, Seq::empty(), content, text);
}

/// Different contents are told apart: no two texts are read as the same one.
pub proof fn law_different_contents_read_differently(left: Seq<char>, right: Seq<char>)
    requires
        left != right,
    ensures
        content_text_of(JsonTree::Text(left)) != content_text_of(JsonTree::Text(right)),
        content_text_of(JsonTree::Text(left)) is Some,
{
}

/// A message has a text for a role exactly where its `role` is that role and its
/// `content` has a text, and it is that text.
pub proof fn law_message_text_is_its_content(message: JsonTree, role: Seq<char>, text: Seq<char>)
    ensures
        message_text(message, role) == Some(text) <==> message.field("role"@) == Some(
            JsonTree::Text(role),
        ) && (message.field("content"@) matches Some(content) && content_text_of(content) == Some(
            text,
        )),
{
}

/// The first text of a role is that of the first message that has one, and there
/// is none where no message has one.
pub proof fn law_first_message_with_a_text_counts(
    messages: Seq<JsonTree>,
    role: Seq<char>,
    first: int,
)
    ensures
        (forall|i: int|
            0 <= i < messages.len() ==> message_text(#[trigger] messages[i], role) is None)
            ==> first_text(messages, role) is None,
        0 <= first < messages.len() && message_text(messages[first], role) is Some && (forall|
            i: int,
        |
            0 <= i < first ==> message_text(#[trigger] messages[i], role) is None) ==> first_text(
            messages,
            role,
        ) == message_text(messages[first], role),
    decreases messages.len(),
{
    if messages.len() > 0 && message_text(messages[0], role) is None {
        let rest = messages.skip(1);
        law_first_message_with_a_text_counts(rest, role, first - 1);
        if forall|i: int|
            0 <= i < messages.len() ==> message_text(#[trigger] messages[i], role) is None {
            assert forall|i: int| 0 <= i < rest.len() implies message_text(
                #[trigger] rest[i],
                role,
            ) is None by {
                assert(message_text(messages[i + 1], role) is None);
            }
        }
        if 0 < first < messages.len() && (forall|i: int|
            0 <= i < first ==> message_text(#[trigger] messages[i], role) is None) {
            assert forall|i: int| 0 <= i < first - 1 implies message_text(
                #[trigger] rest[i],
                role,
            ) is None by {
                assert(message_text(messages[i + 1], role) is None);
            }
        }
    } else if messages.len() > 0 {
        assert(message_text(messages[0], role) is Some);
    }
}

/// The first text that counts is that of the first message whose text is not
/// empty, and there is none where every text is empty.
pub proof fn law_first_message_with_a_filled_text_counts(
    messages: Seq<JsonTree>,
    role: Seq<char>,
    first: int,
)
    ensures
        (forall|i: int|
            0 <= i < messages.len() ==> !has_filled_text(#[trigger] messages[i], role))
            ==> first_filled_text(messages, role) is None,
        0 <= first < messages.len() && has_filled_text(messages[first], role) && (forall|i: int|
            0 <= i < first ==> !has_filled_text(#[trigger] messages[i], role))
            ==> first_filled_text(messages, role) == message_text(messages[first], role),
    decreases messages.len(),
{
    if messages.len() > 0 && !has_filled_text(messages[0], role) {
        let rest = messages.skip(1);
        law_first_message_with_a_filled_text_counts(rest, role, first - 1);
        if forall|i: int|
            0 <= i < messages.len() ==> !has_filled_text(#[trigger] messages[i], role) {
            assert forall|i: int| 0 <= i < rest.len() implies !has_filled_text(
                #[trigger] rest[i],
                role,
            ) by {
                assert(!has_filled_text(messages[i + 1], role));
            }
        }
        if 0 < first < messages.len() && (forall|i: int|
            0 <= i < first ==> !has_filled_text(#[trigger] messages[i], role)) {
            assert forall|i: int| 0 <= i < first - 1 implies !has_filled_text(
                #[trigger] rest[i],
                role,
            ) by {
                assert(!has_filled_text(messages[i + 1], role));
            }
        }
    }
}

/// A text counts where it is not empty.
pub proof fn law_filled_text_is_not_empty(message: JsonTree, role: Seq<char>)
    ensures
        has_filled_text(message, role) <==> message_text(message, role) is Some && message_text(
            message,
            role,
        ) != Some(Seq::<char>::empty()),
{
    if let Some(text) = message_text(message, role) {
        if text.len() == 0 {
            assert(text =~= Seq::empty());
        }
    }
}

/// The opening of a body is read from its `messages`: the first `system` text,
/// empty where there is none, and the first `user` text that is not empty. There
/// is none without such a user text.
pub proof fn law_opening_is_the_first_of_each_role(body: JsonTree, messages: Seq<JsonTree>)
    ensures
        !(body.field("messages"@) matches Some(JsonTree::Array(_))) ==> opening(body) is None,
        body.field("messages"@) == Some(JsonTree::Array(messages)) ==> {
            &&& opening(body) is Some <==> first_filled_text(messages, "user"@) is Some
            &&& opening(body) matches Some(pair) ==> Some(pair.1) == first_filled_text(
                messages,
                "user"@,
            )
            &&& opening(body) matches Some(pair) ==> Some(pair.0) == first_text(
                messages,
                "system"@,
            ) || pair.0.len() == 0 && first_text(messages, "system"@) is None
        },
{
}

/// A conversation whose only message is a user's, with a text that is not empty,
/// opens with that whole text and no system prompt.
pub proof fn law_single_user_message_opens(body: JsonTree, message: JsonTree, text: Seq<char>)
    requires
        body.field("messages"@) == Some(JsonTree::Array(seq![message])),
        message.field("role"@) == Some(JsonTree::Text("user"@)),
        message.field("content"@) == Some(JsonTree::Text(text)),
        text.len() > 0,
    ensures
        opening(body) == Some((Seq::<char>::empty(), text)),
{
    reveal_strlit("user");
    reveal_strlit("system");
    assert("user"@.len() != "system"@.len());
    let messages = seq![message];
    assert(messages.skip(1) =~= Seq::empty());
    assert(first_text(messages.skip(1), "system"@) is None);
}

/// Conversations that open with different user messages are hashed as different
/// byte strings.
pub proof fn law_different_openings_hash_different_bytes(
    body: JsonTree,
    message: JsonTree,
    text: Seq<char>,
    other_body: JsonTree,
    other_message: JsonTree,
    other_text: Seq<char>,
    order: ByteOrder,
)
    requires
        body.field("messages"@) == Some(JsonTree::Array(seq![message])),
        message.field("role"@) == Some(JsonTree::Text("user"@)),
        message.field("content"@) == Some(JsonTree::Text(text)),
        other_body.field("messages"@) == Some(JsonTree::Array(seq![other_message])),
        other_message.field("role"@) == Some(JsonTree::Text("user"@)),
        other_message.field("content"@) == Some(JsonTree::Text(other_text)),
        text.len() > 0,
        other_text.len() > 0,
        text != other_text,
    ensures
        opening(body) matches Some(left) && (opening(other_body) matches Some(right)
            && opening_bytes(left.0, left.1, order) != opening_bytes(right.0, right.1, order)),
{
    law_single_user_message_opens(body, message, text);
    law_single_user_message_opens(other_body, other_message, other_text);
    let none = Seq::<char>::empty();
    if opening_bytes(none, text, order) == opening_bytes(none, other_text, order) {
        lemma_same_bytes_same_user(none, text, other_text, order);
    }
}

proof fn lemma_same_bytes_same_user(
    system: Seq<char>,
    user: Seq<char>,
    other: Seq<char>,
    order: ByteOrder,
)
    requires
        opening_bytes(system, user, order) == opening_bytes(system, other, order),
    ensures
        user == other,
{
    lemma_auto_spec_u64_to_from_le_bytes();
    let (s, u, v) = (encode_utf8(system), encode_utf8(user), encode_utf8(other));
    let at = 16 + s.len() as int;
    assert(opening_bytes(system, user, order).skip(at) =~= u);
    assert(opening_bytes(system, other, order).skip(at) =~= v);
    encode_utf8_decode_utf8(user);
    encode_utf8_decode_utf8(other);
}

/// A length is written in eight bytes that stand for it, least significant first
/// or, in the other order, last.
pub proof fn law_length_bytes_stand_for_the_length(len: u64)
    ensures
        len_bytes(len, ByteOrder::Little).len() == 8,
        spec_u64_from_le_bytes(len_bytes(len, ByteOrder::Little)) == len,
        len_bytes(len, ByteOrder::Big).len() == 8,
        forall|i: int|
            0 <= i < 8 ==> #[trigger] len_bytes(len, ByteOrder::Big)[i] == len_bytes(
                len,
                ByteOrder::Little,
            )[7 - i],
{
    lemma_auto_spec_u64_to_from_le_bytes();
}

/// What is hashed for an opening is four writes: the length and all the bytes of
/// the system prompt, then the length and all the bytes of the user message.
pub proof fn law_opening_is_hashed_in_four_writes(
    system: Seq<char>,
    user: Seq<char>,
    order: ByteOrder,
)
    ensures
        opening_writes(system, user, order).len() == 4,
        opening_writes(system, user, order)[0] == len_bytes(
            encode_utf8(system).len() as u64,
            order,
        ),
        opening_writes(system, user, order)[1] == encode_utf8(system),
        opening_writes(system, user, order)[2] == len_bytes(encode_utf8(user).len() as u64, order),
        opening_writes(system, user, order)[3] == encode_utf8(user),
{
}

/// The key of an opening is `o:` and the sixteen hexadecimal digits of its hash.
pub proof fn law_opening_key_shows_the_hash(
    body: JsonTree,
    system: Seq<char>,
    user: Seq<char>,
    order: ByteOrder,
)
    ensures
        opening(body) == Some((system, user)) ==> (opening_key_in(body, order) matches Some(key)
            && key.len() == 18 && key.take(2) == "o:"@ && hex_value(key.skip(2))
            == DefaultHasher::spec_finish(opening_writes(system, user, order))),
        opening(body) is None ==> opening_key_in(body, order) is None,
{
    let digest = DefaultHasher::spec_finish(opening_writes(system, user, order));
    law_hex_text_stands_for_its_number(digest);
    reveal_strlit("o:");
    let key = opening_key(system, user, order);
    assert(key.take(2) =~= "o:"@);
    assert(key.skip(2) =~= hex_text(digest as nat, 16));
}

/// A call that reads content gives back a string in full, and nothing of content
/// that is neither a string nor an array.
pub proof fn law_content_call_reads_in_full(content: &Json, text: Option<String>)
    requires
        call_ensures(content_text, (content,), text),
    ensures
        content matches Json::Text(whole) ==> (text matches Some(read) && read@ == whole@),
        !(content is Text) && !(content is Array) ==> text is None,
{
}

/// A prefixed write adds two writes to what was written before: the length and
/// the bytes.
pub proof fn law_prefixed_write_adds_length_and_bytes(
    seen: Seq<Seq<u8>>,
    bytes: Seq<u8>,
    order: ByteOrder,
)
    ensures
        prefixed_write(seen, bytes, order) == seen + seq![
            len_bytes(bytes.len() as u64, order),
            bytes,
        ],
{
}

} // verus!
