//! The topic address grammar.
//!
//! A wire-level topic names a resource through one of two fixed templates,
//! `/m/d/<name>/transaction` and `/m/d/<name>/subset/<subset>/transaction`,
//! where `<name>` and `<subset>` are non-empty, contain no `/`, and are
//! percent-encoded. A topic matching neither template addresses no resource:
//! such requests are denied before any rule is consulted.

use vstd::prelude::*;
use crate::percent::{decode_component, decode_component_str};
use crate::text::{split_chars, split_str, str_eq};

verus! {

/// The resource a topic addresses: a database name and, for subset topics,
/// a subset name, both percent-decoded.
pub struct TopicAddress {
    pub db_name: String,
    pub subset_name: Option<String>,
}

/// The raw (still percent-encoded) components of a topic under the two
/// address templates, or `None` when the topic matches neither.
pub open spec fn topic_template(t: Seq<char>) -> Option<(Seq<char>, Option<Seq<char>>)> {
    let segs = split_chars(t, '/');
    if segs.len() == 5 && segs[0].len() == 0 && segs[1] == "m"@ && segs[2] == "d"@
        && segs[3].len() > 0 && segs[4] == "transaction"@ {
        Some((segs[3], None))
    } else if segs.len() == 7 && segs[0].len() == 0 && segs[1] == "m"@ && segs[2] == "d"@
        && segs[3].len() > 0 && segs[4] == "subset"@ && segs[5].len() > 0
        && segs[6] == "transaction"@ {
        Some((segs[3], Some(segs[5])))
    } else {
        None
    }
}

/// The percent-decoded resource address of a topic: `None` when the topic
/// matches neither template or a component does not decode to valid text.
pub open spec fn topic_address(t: Seq<char>) -> Option<(Seq<char>, Option<Seq<char>>)> {
    match topic_template(t) {
        None => None,
        Some((db_raw, subset_raw)) => match (decode_component(db_raw), subset_raw) {
            (None, _) => None,
            (Some(db), None) => Some((db, None)),
            (Some(db), Some(sub_raw)) => match decode_component(sub_raw) {
                None => None,
                Some(sub) => Some((db, Some(sub))),
            },
        },
    }
}

/// Resolves a topic string to the resource it addresses.
pub fn parse_topic(topic: &str) -> (r: Option<TopicAddress>)
    ensures
        r is Some <==> topic_address(topic@) is Some,
        r is Some ==> Some((r->0.db_name@, r->0.subset_name.deep_view())) == topic_address(
            topic@,
        ),
{
    let segs = split_str(topic, '/');
    let ghost sv = split_chars(topic@, '/');
    assert(forall|i: int| 0 <= i < segs@.len() ==> segs.deep_view()[i] == segs@[i]@);
    if segs.len() == 5 {
        if segs[0].as_str().is_empty() && str_eq(segs[1].as_str(), "m") && str_eq(
            segs[2].as_str(),
            "d",
        ) && !segs[3].as_str().is_empty() && str_eq(segs[4].as_str(), "transaction") {
            assert(topic_template(topic@) == Some((sv[3], Option::<Seq<char>>::None)));
            match decode_component_str(segs[3].as_str()) {
                Some(db) => Some(TopicAddress { db_name: db, subset_name: None }),
                None => None,
            }
        } else {
            assert(topic_template(topic@) is None);
            None
        }
    } else if segs.len() == 7 {
        if segs[0].as_str().is_empty() && str_eq(segs[1].as_str(), "m") && str_eq(
            segs[2].as_str(),
            "d",
        ) && !segs[3].as_str().is_empty() && str_eq(segs[4].as_str(), "subset")
            && !segs[5].as_str().is_empty() && str_eq(segs[6].as_str(), "transaction") {
            assert(topic_template(topic@) == Some((sv[3], Some(sv[5]))));
            match decode_component_str(segs[3].as_str()) {
                Some(db) => match decode_component_str(segs[5].as_str()) {
                    Some(sub) => Some(TopicAddress { db_name: db, subset_name: Some(sub) }),
                    None => None,
                },
                None => None,
            }
        } else {
            assert(topic_template(topic@) is None);
            None
        }
    } else {
        assert(topic_template(topic@) is None);
        None
    }
}

} // verus!
