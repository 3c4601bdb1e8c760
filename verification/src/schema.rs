//! The nested schema document attached to a tool, and extraction of its
//! searchable text: for an object node, every key name (each followed by a
//! space), then the node's own `"description"` string if present, then the
//! text of every nested object value, then every string value at that level.
//! Other nodes contribute nothing.

use vstd::prelude::*;
use vstd::string::*;

verus! {

/// A nested key/value document: the shape of a JSON value tree.
/// Numeric leaves never contribute searchable text, so their value is not kept.
#[derive(Debug)]
pub enum SchemaValue {
    Null,
    Bool(bool),
    Number,
    Text(String),
    Array(Vec<SchemaValue>),
    Object(Vec<(String, SchemaValue)>),
}

/// All key names of an object, each followed by a space.
pub open spec fn keys_text(pairs: Seq<(String, SchemaValue)>) -> Seq<char>
    decreases pairs.len(),
{
    if pairs.len() == 0 {
        Seq::empty()
    } else {
        pairs[0].0@ + seq![' '] + keys_text(pairs.drop_first())
    }
}

/// The object's own `"description"` value followed by a space, when its first
/// entry under that key holds a string; nothing otherwise.
pub open spec fn description_text(pairs: Seq<(String, SchemaValue)>) -> Seq<char>
    decreases pairs.len(),
{
    if pairs.len() == 0 {
        Seq::empty()
    } else if pairs[0].0@ == "description"@ {
        match pairs[0].1 {
            SchemaValue::Text(s) => s@ + seq![' '],
            _ => Seq::empty(),
        }
    } else {
        description_text(pairs.drop_first())
    }
}

/// The searchable text of a schema document.
pub open spec fn schema_text(v: SchemaValue) -> Seq<char>
    decreases v,
{
    match v {
        SchemaValue::Object(pairs) => keys_text(pairs@) + description_text(pairs@) + nested_text(
            pairs@,
        ) + string_values_text(pairs@),
        _ => Seq::empty(),
    }
}

/// The extracted text of every object-typed value of an object, in order.
pub open spec fn nested_text(pairs: Seq<(String, SchemaValue)>) -> Seq<char>
    decreases pairs,
{
    if pairs.len() == 0 {
        Seq::empty()
    } else {
        (match pairs[0].1 {
            SchemaValue::Object(_) => schema_text(pairs[0].1),
            _ => Seq::empty(),
        }) + nested_text(pairs.drop_first())
    }
}

/// Every string-typed value of an object, each followed by a space, in order.
pub open spec fn string_values_text(pairs: Seq<(String, SchemaValue)>) -> Seq<char>
    decreases pairs.len(),
{
    if pairs.len() == 0 {
        Seq::empty()
    } else {
        (match pairs[0].1 {
            SchemaValue::Text(s) => s@ + seq![' '],
            _ => Seq::empty(),
        }) + string_values_text(pairs.drop_first())
    }
}

/// Flatten a schema document into one searchable string.
#[verifier::loop_isolation(false)]
pub fn extract_schema_text(v: &SchemaValue) -> (r: String)
    ensures
        r@ == schema_text(*v),
    decreases *v,
{
    match v {
        SchemaValue::Object(pairs) => {
            let n = pairs.len();
            let mut out = String::new();
            proof {
                assert(pairs@.skip(0) =~= pairs@);
                assert(out@ + keys_text(pairs@) =~= keys_text(pairs@));
            }
            let mut i: usize = 0;
            while i < n
                invariant
                    n == pairs@.len(),
                    0 <= i <= n,
                    out@ + keys_text(pairs@.skip(i as int)) == keys_text(pairs@),
                decreases n - i,
            {
                proof {
                    assert(pairs@.skip(i as int).drop_first() =~= pairs@.skip(i + 1));
                    assert(pairs@.skip(i as int)[0] == pairs@[i as int]);
                }
                out.append(pairs[i].0.as_str());
                out.append(" ");
                proof {
                    reveal_strlit(" ");
                    assert(" "@ =~= seq![' ']);
                }
                i += 1;
            }
            proof {
                assert(pairs@.skip(n as int) =~= Seq::<(String, SchemaValue)>::empty());
            }
            proof {
                assert(pairs@.skip(0) =~= pairs@);
            }
            let mut i: usize = 0;
            let mut found = false;
            while i < n
                invariant
                    n == pairs@.len(),
                    0 <= i <= n,
                    found ==> out@ == keys_text(pairs@) + description_text(pairs@),
                    !found ==> out@ == keys_text(pairs@) && description_text(pairs@.skip(i as int))
                        == description_text(pairs@),
                decreases n - i,
            {
                proof {
                    assert(pairs@.skip(i as int).drop_first() =~= pairs@.skip(i + 1));
                    assert(pairs@.skip(i as int)[0] == pairs@[i as int]);
                }
                if !found && crate::text::str_eq(pairs[i].0.as_str(), "description") {
                    match &pairs[i].1 {
                        SchemaValue::Text(s) => {
                            out.append(s.as_str());
                            out.append(" ");
                            proof {
                                reveal_strlit(" ");
                                assert(" "@ =~= seq![' ']);
                            }
                        },
                        _ => {},
                    }
                    found = true;
                }
                i += 1;
            }
            proof {
                assert(pairs@.skip(n as int) =~= Seq::<(String, SchemaValue)>::empty());
                assert(out@ == keys_text(pairs@) + description_text(pairs@));
            }
            let mut i: usize = 0;
            while i < n
                invariant
                    n == pairs@.len(),
                    0 <= i <= n,
                    out@ + nested_text(pairs@.skip(i as int)) == keys_text(pairs@)
                        + description_text(pairs@) + nested_text(pairs@),
                decreases n - i,
            {
                proof {
                    assert(pairs@.skip(i as int).drop_first() =~= pairs@.skip(i + 1));
                    assert(pairs@.skip(i as int)[0] == pairs@[i as int]);
                }
                match &pairs[i].1 {
                    SchemaValue::Object(_) => {
                        proof {
                            broadcast use vstd::std_specs::vec::axiom_vec_index_decreases;

                            assert(*v == SchemaValue::Object(*pairs));
                            assert(decreases_to!(*pairs => pairs[i as int]));
                            assert(decreases_to!(*v => pairs[i as int].1));
                        }
                        let t = extract_schema_text(&pairs[i].1);
                        out.append(t.as_str());
                    },
                    _ => {},
                }
                i += 1;
            }
            proof {
                assert(pairs@.skip(n as int) =~= Seq::<(String, SchemaValue)>::empty());
            }
            let mut i: usize = 0;
            while i < n
                invariant
                    n == pairs@.len(),
                    0 <= i <= n,
                    out@ + string_values_text(pairs@.skip(i as int)) == schema_text(*v),
                decreases n - i,
            {
                proof {
                    assert(pairs@.skip(i as int).drop_first() =~= pairs@.skip(i + 1));
                    assert(pairs@.skip(i as int)[0] == pairs@[i as int]);
                }
                match &pairs[i].1 {
                    SchemaValue::Text(s) => {
                        out.append(s.as_str());
                        out.append(" ");
                        proof {
                            reveal_strlit(" ");
                            assert(" "@ =~= seq![' ']);
                        }
                    },
                    _ => {},
                }
                i += 1;
            }
            proof {
                assert(pairs@.skip(n as int) =~= Seq::<(String, SchemaValue)>::empty());
            }
            out
        },
        _ => {
            let out = String::new();
            out
        },
    }
}

} // verus!
