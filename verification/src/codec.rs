use vstd::prelude::*;

verus! {

#[verifier::external_type_specification]
#[verifier::external_body]
pub struct ExJsonValue(serde_json::Value);

#[verifier::external_type_specification]
#[verifier::external_body]
#[verifier::reject_recursive_types(K)]
#[verifier::reject_recursive_types(V)]
pub struct ExJsonMap<K, V>(serde_json::Map<K, V>);

/// Spec-level stand-in for one JSON value stored under a key of an object:
/// a string value is carried literally, any other value is known only by an
/// abstract token.
pub enum JsonVal {
    Str(Seq<char>),
    Other(Seq<char>),
}

/// The abstract contents of a `serde_json::Map`: each key mapped to the
/// stand-in for its value.
pub uninterp spec fn obj_entries(
    m: serde_json::Map<String, serde_json::Value>,
) -> Map<Seq<char>, JsonVal>;

/// What a byte string denotes when read as a JSON document: `Some` of the
/// object's entries when it is the UTF-8 text of a JSON object, `None` for
/// every other shape (array, scalar, or unparseable bytes).
pub uninterp spec fn json_object(bytes: Seq<u8>) -> Option<Map<Seq<char>, JsonVal>>;

/// The serialized JSON text of an object with the given entries.
pub uninterp spec fn obj_text(entries: Map<Seq<char>, JsonVal>) -> Seq<u8>;

/// Whether serializing this map yields text that the parser reads back as a
/// JSON object with the same entries. This is not true of every map a
/// caller could build — one nested deeper than the parser's recursion limit
/// serializes to text the parser rejects — but it is true of every map the
/// parser itself produced: its depth already passed that limit, its numbers
/// are in parsed form, which the serializer prints exactly and the parser
/// (with the `float_roundtrip` feature this crate enables) reads back
/// without precision loss, and its strings round-trip through escaping.
pub uninterp spec fn reparsable(m: serde_json::Map<String, serde_json::Value>) -> bool;

/// Relies on serde_json::from_slice and serde_json::Value: a byte string
/// deserializes to `Value::Object` exactly when it is the UTF-8 text of a
/// JSON object, and parsing is a pure function of the bytes. A map the
/// parser produced re-parses to itself (see [`reparsable`]).
#[verifier::external_body]
fn parse_object(bytes: &Vec<u8>) -> (r: Option<serde_json::Map<String, serde_json::Value>>)
    ensures
        r is Some <==> json_object(bytes@) is Some,
        r matches Some(m) ==> Some(obj_entries(m)) == json_object(bytes@),
        r matches Some(m) ==> reparsable(m),
{
    match serde_json::from_slice::<serde_json::Value>(bytes) {
        Ok(serde_json::Value::Object(m)) => Some(m),
        _ => None,
    }
}

/// Relies on serde_json::Map::insert: the entry for `key` becomes the given
/// string value, overwriting any previous entry of that name, and every
/// other entry is left unchanged. Inserting a string leaf at the top level
/// neither deepens the nesting nor touches the other values, so a map that
/// re-parsed to itself still does.
#[verifier::external_body]
fn insert_string_field(m: &mut serde_json::Map<String, serde_json::Value>, key: &str, val: &str)
    ensures
        obj_entries(*final(m)) == obj_entries(*old(m)).insert(key@, JsonVal::Str(val@)),
        reparsable(*old(m)) ==> reparsable(*final(m)),
{
    m.insert(key.to_string(), serde_json::Value::String(val.to_string()));
}

/// Relies on serde_json's serializer (the Display impl of Value): it emits
/// the JSON text of the object — the map keeps its entries ordered by key,
/// so the text is a pure function of the entries — and, for a map within
/// the parser's reach (see [`reparsable`]), that text parses back as a JSON
/// object with exactly those entries.
#[verifier::external_body]
fn object_to_bytes(m: serde_json::Map<String, serde_json::Value>) -> (r: Vec<u8>)
    ensures
        r@ == obj_text(obj_entries(m)),
        reparsable(m) ==> json_object(r@) == Some(obj_entries(m)),
{
    serde_json::Value::Object(m).to_string().into_bytes()
}

/// The entries of the document after augmentation, when the input parses as
/// a JSON object.
pub open spec fn augmented_doc(m: Seq<u8>, key: Seq<char>, val: Seq<char>) -> Option<
    Map<Seq<char>, JsonVal>,
> {
    match json_object(m) {
        Some(e) => Some(e.insert(key, JsonVal::Str(val))),
        None => None,
    }
}

/// The byte string produced by augmentation: the re-serialized object when
/// the input parses as a JSON object, the input itself otherwise.
pub open spec fn augmented_bytes(m: Seq<u8>, key: Seq<char>, val: Seq<char>) -> Seq<u8> {
    match json_object(m) {
        Some(e) => obj_text(e.insert(key, JsonVal::Str(val))),
        None => m,
    }
}

/// Interprets `metadata` as UTF-8 JSON text; if it is an object, sets the
/// field `key` to the string `val` (silently overwriting an existing field
/// of that name) and re-serializes. Any other shape — array, scalar, or
/// bytes that do not parse — is returned unchanged: malformed metadata must
/// never block a revocation.
pub fn augment_metadata(metadata: &Vec<u8>, key: &str, val: &str) -> (r: Vec<u8>)
    ensures
        r@ == augmented_bytes(metadata@, key@, val@),
        json_object(r@) == augmented_doc(metadata@, key@, val@),
        json_object(metadata@) is None ==> r@ == metadata@,
{
    match parse_object(metadata) {
        Some(mut obj) => {
            insert_string_field(&mut obj, key, val);
            object_to_bytes(obj)
        },
        None => crate::record::clone_bytes(metadata),
    }
}

/// Law: augmentation is idempotent. If `m2` came out of augmenting `m1` with
/// a field and value, augmenting `m2` with the same field and value returns
/// `m2` unchanged, and the resulting document — a map, so free of duplicate
/// fields — holds exactly the given string under that field.
pub proof fn lemma_augment_idempotent(m1: Seq<u8>, m2: Seq<u8>, key: Seq<char>, val: Seq<char>)
    requires
        m2 == augmented_bytes(m1, key, val),
        json_object(m2) == augmented_doc(m1, key, val),
    ensures
        augmented_bytes(m2, key, val) == m2,
        augmented_doc(m2, key, val) == augmented_doc(m1, key, val),
        json_object(m1) is Some ==> (augmented_doc(m2, key, val) matches Some(e)
            && e[key] == JsonVal::Str(val)),
{
    if json_object(m1) is Some {
        let e = json_object(m1)->0;
        assert(e.insert(key, JsonVal::Str(val)).insert(key, JsonVal::Str(val))
            =~= e.insert(key, JsonVal::Str(val)));
    }
}

} // verus!
