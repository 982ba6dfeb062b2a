//! The feature map of a series, and its JSON spelling: an object of plain scalars.
use crate::json::{
    as_bool, as_i64, as_real, as_text, copy_value, empty_object, json_bool, json_i64, json_object,
    json_text, kind_of, kind_of_tree, lists_members, members, members_of, plain, put,
    read_json, reading, reads_as, real_of, rendered, rendered_text, tree_of, JsonKind, JsonNumber, JsonTree,
};
use crate::text::before;
use vstd::prelude::*;

verus! {

/// The value of one feature.
///
/// A float is held as the JSON document it spells: a number, or null for one that JSON
/// cannot spell.
#[derive(Debug)]
pub enum FeatureValue {
    Int(i64),
    Float(serde_json::Value),
    Bool(bool),
    Str(String),
}

/// A [`FeatureValue`], with its text as characters and its document as a tree.
pub enum FeatureView {
    Int(int),
    Float(JsonTree),
    Bool(bool),
    Str(Seq<char>),
}

impl View for FeatureValue {
    type V = FeatureView;

    open spec fn view(&self) -> FeatureView {
        match *self {
            FeatureValue::Int(i) => FeatureView::Int(i as int),
            FeatureValue::Float(f) => FeatureView::Float(tree_of(f)),
            FeatureValue::Bool(b) => FeatureView::Bool(b),
            FeatureValue::Str(s) => FeatureView::Str(s@),
        }
    }
}

impl FeatureView {
    /// The JSON a feature is spelled as: the value, and not a tag that says its kind.
    pub open spec fn tree(self) -> JsonTree {
        match self {
            FeatureView::Int(i) => JsonTree::Number(JsonNumber::Integer(i)),
            FeatureView::Float(f) => f,
            FeatureView::Bool(b) => JsonTree::Bool(b),
            FeatureView::Str(s) => JsonTree::Text(s),
        }
    }
}

/// The feature a JSON value spells, its kind inferred from the JSON type.
pub open spec fn feature_in(t: JsonTree) -> Option<FeatureView> {
    match t {
        JsonTree::Bool(b) => Some(FeatureView::Bool(b)),
        JsonTree::Number(n) => match n {
            JsonNumber::Integer(i) => if i64::MIN <= i <= i64::MAX {
                Some(FeatureView::Int(i))
            } else {
                Some(FeatureView::Float(JsonTree::Number(JsonNumber::Real(real_of(n)))))
            },
            JsonNumber::Real(_) => Some(
                FeatureView::Float(JsonTree::Number(JsonNumber::Real(real_of(n)))),
            ),
        },
        JsonTree::Text(s) => Some(FeatureView::Str(s)),
        _ => None,
    }
}

/// One feature, by name.
#[derive(Debug)]
pub struct Feature {
    pub name: String,
    pub value: FeatureValue,
}

/// A series' features, by name and ascending.
#[derive(Debug)]
pub struct Features {
    pub entries: Vec<Feature>,
}

/// The features of a list, by name; the last of a name counts.
pub open spec fn features_map(entries: Seq<Feature>) -> Map<Seq<char>, FeatureView>
    decreases entries.len(),
{
    if entries.len() == 0 {
        Map::empty()
    } else {
        features_map(entries.drop_last()).insert(entries.last().name@, entries.last().value@)
    }
}

impl View for Features {
    type V = Map<Seq<char>, FeatureView>;

    open spec fn view(&self) -> Map<Seq<char>, FeatureView> {
        features_map(self.entries@)
    }
}

/// The JSON members a feature map is spelled as.
pub open spec fn feature_members(features: Map<Seq<char>, FeatureView>) -> Map<
    Seq<char>,
    JsonTree,
> {
    Map::new(|k: Seq<char>| features.contains_key(k), |k: Seq<char>| features[k].tree())
}

/// The JSON of one feature.
fn feature_json(value: &FeatureValue) -> (r: serde_json::Value)
    ensures
        tree_of(r) == value@.tree(),
{
    match value {
        FeatureValue::Int(i) => json_i64(*i),
        FeatureValue::Float(f) => copy_value(f),
        FeatureValue::Bool(b) => json_bool(*b),
        FeatureValue::Str(s) => json_text(s.as_str()),
    }
}

/// The same feature value again.
fn copy_feature(value: &FeatureValue) -> (r: FeatureValue)
    ensures
        r@ == value@,
{
    match value {
        FeatureValue::Int(i) => FeatureValue::Int(*i),
        FeatureValue::Float(f) => FeatureValue::Float(copy_value(f)),
        FeatureValue::Bool(b) => FeatureValue::Bool(*b),
        FeatureValue::Str(s) => FeatureValue::Str(s.clone()),
    }
}

impl Features {
    /// No features.
    pub fn new() -> (r: Features)
        ensures
            r@ == Map::<Seq<char>, FeatureView>::empty(),
            r.entries@.len() == 0,
    {
        Features { entries: Vec::new() }
    }

    /// The same features again.
    pub fn copied(&self) -> (r: Features)
        ensures
            r@ == self@,
            r.entries@.len() == self.entries@.len(),
    {
        let mut out: Vec<Feature> = Vec::new();
        let mut i: usize = 0;
        while i < self.entries.len()
            invariant
                i <= self.entries.len(),
                out@.len() == i,
                features_map(out@) == features_map(self.entries@.take(i as int)),
            decreases self.entries.len() - i,
        {
            let f = Feature {
                name: self.entries[i].name.clone(),
                value: copy_feature(&self.entries[i].value),
            };
            let ghost was = out@;
            out.push(f);
            proof {
                assert(out@.drop_last() =~= was);
                assert(self.entries@.take(i + 1).drop_last() =~= self.entries@.take(i as int));
                assert(self.entries@.take(i + 1).last() == self.entries@[i as int]);
            }
            i += 1;
        }
        proof {
            assert(self.entries@.take(i as int) =~= self.entries@);
        }
        Features { entries: out }
    }
}

/// The feature map as a JSON object of plain scalars.
pub fn features_object(features: &Features) -> (r: serde_json::Value)
    ensures
        tree_of(r) == JsonTree::Object(feature_members(features@)),
{
    let mut object = empty_object();
    let mut i: usize = 0;
    proof {
        assert(features.entries@.take(0) =~= seq![]);
        assert(members_of(object) =~= feature_members(features_map(features.entries@.take(0))));
    }
    while i < features.entries.len()
        invariant
            i <= features.entries.len(),
            members_of(object) == feature_members(features_map(features.entries@.take(i as int))),
        decreases features.entries.len() - i,
    {
        let ghost was = members_of(object);
        put(
            &mut object,
            features.entries[i].name.as_str(),
            feature_json(&features.entries[i].value),
        );
        proof {
            let entries = features.entries@;
            assert(entries.take(i + 1).drop_last() =~= entries.take(i as int));
            assert(entries.take(i + 1).last() == entries[i as int]);
            assert(members_of(object) =~= feature_members(features_map(entries.take(i + 1))));
        }
        i += 1;
    }
    proof {
        assert(features.entries@.take(i as int) =~= features.entries@);
    }
    json_object(object)
}

/// The JSON text of a feature map: `{"model_year":2030}`.
pub open spec fn features_text(features: Map<Seq<char>, FeatureView>) -> Seq<char> {
    rendered_text(JsonTree::Object(feature_members(features)))
}

/// Whether a feature map reads back as it was written: its floats are numbers, which infinities
/// are not for JSON.
pub open spec fn floats_finite(features: Map<Seq<char>, FeatureView>) -> bool {
    forall|k: Seq<char>| #[trigger]
        features.contains_key(k) ==> match features[k] {
            FeatureView::Int(i) => i64::MIN <= i <= i64::MAX,
            FeatureView::Float(f) => f matches JsonTree::Number(JsonNumber::Real(_)),
            _ => true,
        }
}

/// The feature map as a JSON object of plain scalars: `{"model_year":2030}` and not the tagged
/// form, so that someone reading it in a query engine sees the value. A map whose floats are
/// finite reads back as it was written.
pub fn encode_features(features: &Features) -> (r: String)
    ensures
        r@ == features_text(features@),
        floats_finite(features@) ==> reading(r@) == reads_as(
            JsonTree::Object(feature_members(features@)),
        ),
{
    let object = features_object(features);
    proof {
        if floats_finite(features@) {
            let m = feature_members(features@);
            assert forall|k: Seq<char>| #[trigger] m.contains_key(k) implies plain(m[k]) by {
                assert(features@.contains_key(k));
            }
        }
    }
    rendered(&object)
}

/// A member that is no feature.
#[derive(Debug)]
pub struct BadFeature {
    pub name: String,
    pub kind: JsonKind,
}

/// Whether a feature map is exactly what an object's members spell.
pub open spec fn spells_features(
    m: Map<Seq<char>, JsonTree>,
    features: Map<Seq<char>, FeatureView>,
) -> bool {
    &&& features.dom() == m.dom()
    &&& forall|k: Seq<char>| #[trigger]
        m.contains_key(k) ==> feature_in(m[k]) == Some(features[k])
}

/// Whether a member is the first, by name, that is no feature.
pub open spec fn first_bad_member(m: Map<Seq<char>, JsonTree>, name: Seq<char>) -> bool {
    &&& m.contains_key(name)
    &&& feature_in(m[name]) is None
    &&& forall|k: Seq<char>| #[trigger]
        m.contains_key(k) && before(k, name) ==> feature_in(m[k]) is Some
}

fn feature_from(v: &serde_json::Value) -> (r: Option<FeatureValue>)
    ensures
        match (r, feature_in(tree_of(*v))) {
            (Some(f), Some(expected)) => f@ == expected,
            (None, None) => true,
            _ => false,
        },
{
    match kind_of(v) {
        JsonKind::Bool => match as_bool(v) {
            Some(b) => Some(FeatureValue::Bool(b)),
            None => None,
        },
        JsonKind::Number => match as_i64(v) {
            Some(i) => Some(FeatureValue::Int(i)),
            None => match as_real(v) {
                Some(f) => Some(FeatureValue::Float(f)),
                None => None,
            },
        },
        JsonKind::Text => match as_text(v) {
            Some(s) => Some(FeatureValue::Str(s)),
            None => None,
        },
        _ => None,
    }
}

/// The features an object's members spell, or the first of them, by name, that spells none.
pub(crate) fn features_from(
    entries: &Vec<(String, serde_json::Value)>,
    Ghost(m): Ghost<Map<Seq<char>, JsonTree>>,
) -> (r: Result<Features, BadFeature>)
    requires
        lists_members(entries@, m),
    ensures
        match r {
            Ok(features) => spells_features(m, features@) && features.entries@.len()
                == entries@.len(),
            Err(bad) => first_bad_member(m, bad.name@) && bad.kind == kind_of_tree(m[bad.name@]),
        },
{
    let mut out: Vec<Feature> = Vec::new();
    let mut i: usize = 0;
    while i < entries.len()
        invariant
            i <= entries.len(),
            out@.len() == i,
            lists_members(entries@, m),
            forall|j: int|
                0 <= j < i ==> features_map(out@).contains_key((#[trigger] entries@[j]).0@)
                    && feature_in(tree_of(entries@[j].1)) == Some(
                    features_map(out@)[entries@[j].0@],
                ),
            forall|k: Seq<char>| #[trigger]
                features_map(out@).contains_key(k) ==> exists|j: int|
                    0 <= j < i && (#[trigger] entries@[j]).0@ == k,
        decreases entries.len() - i,
    {
        match feature_from(&entries[i].1) {
            None => {
                proof {
                    let name = entries@[i as int].0@;
                    assert(m.contains_key(name));
                    assert forall|k: Seq<char>| #[trigger]
                        m.contains_key(k) && before(k, name) implies feature_in(m[k]) is Some by {
                        let j = choose|j: int|
                            0 <= j < entries@.len() && (#[trigger] entries@[j]).0@ == k;
                        if j > i {
                            assert(before(entries@[i as int].0@, entries@[j].0@));
                            crate::text::before_transitive(k, name, k);
                            crate::text::before_irreflexive(k);
                        } else if j == i {
                            crate::text::before_irreflexive(k);
                        }
                    }
                }
                return Err(
                    BadFeature { name: entries[i].0.clone(), kind: kind_of(&entries[i].1) },
                );
            },
            Some(value) => {
                let ghost was = out@;
                let f = Feature { name: entries[i].0.clone(), value };
                out.push(f);
                proof {
                    assert(out@.drop_last() =~= was);
                    assert forall|j: int| 0 <= j < i + 1 implies features_map(out@).contains_key(
                        (#[trigger] entries@[j]).0@,
                    ) && feature_in(tree_of(entries@[j].1)) == Some(
                        features_map(out@)[entries@[j].0@],
                    ) by {
                        if j < i {
                            assert(before(entries@[j].0@, entries@[i as int].0@));
                            if entries@[j].0@ == entries@[i as int].0@ {
                                crate::text::before_irreflexive(entries@[j].0@);
                            }
                        }
                    }
                    assert forall|k: Seq<char>| #[trigger]
                        features_map(out@).contains_key(k) implies exists|j: int|
                        0 <= j < i + 1 && (#[trigger] entries@[j]).0@ == k by {
                        if k == entries@[i as int].0@ {
                            assert(entries@[i as int].0@ == k);
                        } else {
                            assert(features_map(was).contains_key(k));
                            let j = choose|j: int|
                                0 <= j < i && (#[trigger] entries@[j]).0@ == k;
                            assert(entries@[j].0@ == k);
                        }
                    }
                }
            },
        }
        i += 1;
    }
    proof {
        let features = features_map(out@);
        assert(features.dom() =~= m.dom()) by {
            assert forall|k: Seq<char>| features.contains_key(k) <==> m.contains_key(k) by {
                if m.contains_key(k) {
                    let j = choose|j: int|
                        0 <= j < entries@.len() && (#[trigger] entries@[j]).0@ == k;
                    assert(features.contains_key(entries@[j].0@));
                }
                if features.contains_key(k) {
                    let j = choose|j: int| 0 <= j < i && (#[trigger] entries@[j]).0@ == k;
                    assert(m.contains_key(entries@[j].0@));
                }
            }
        }
        assert forall|k: Seq<char>| #[trigger] m.contains_key(k) implies feature_in(m[k]) == Some(
            features[k],
        ) by {
            let j = choose|j: int| 0 <= j < entries@.len() && (#[trigger] entries@[j]).0@ == k;
            assert(m[entries@[j].0@] == tree_of(entries@[j].1));
        }
    }
    Ok(Features { entries: out })
}

pub open spec fn not_json_text(message: Seq<char>) -> Seq<char> {
    "features is not JSON: "@ + message
}

pub open spec fn not_object_text() -> Seq<char> {
    "features must be a JSON object"@
}

pub open spec fn bad_feature_text(name: Seq<char>) -> Seq<char> {
    "feature "@ + name + ": must be an int, float, bool, or string"@
}

/// Whether a feature map, or an error, is what a `features` value reads as.
pub open spec fn decodes(text: Seq<char>, r: Result<Map<Seq<char>, FeatureView>, Seq<char>>) -> bool {
    match reading(text) {
        Err(message) => r matches Err(e) && e == not_json_text(message),
        Ok(JsonTree::Object(m)) => match r {
            Ok(features) => spells_features(m, features),
            Err(e) => exists|name: Seq<char>| #[trigger]
                first_bad_member(m, name) && e == bad_feature_text(name),
        },
        Ok(_) => r matches Err(e) && e == not_object_text(),
    }
}

/// A feature map that was decoded, or why it was not.
pub open spec fn features_result(r: Result<Features, String>) -> Result<
    Map<Seq<char>, FeatureView>,
    Seq<char>,
> {
    match r {
        Ok(features) => Ok(features@),
        Err(e) => Err(e@),
    }
}

/// Reads a `features` value back, inferring each value's kind from its JSON type.
pub fn decode_features(text: &str) -> (r: Result<Features, String>)
    ensures
        decodes(text@, features_result(r)),
{
    let value = match read_json(text) {
        Ok(value) => value,
        Err(message) => {
            let mut e = "features is not JSON: ".to_string();
            e.append(message.as_str());
            return Err(e);
        },
    };
    let ghost tree = tree_of(value);
    match members(value) {
        None => Err("features must be a JSON object".to_string()),
        Some(entries) => match features_from(&entries, Ghost(tree->Object_0)) {
            Ok(features) => Ok(features),
            Err(bad) => {
                let mut e = "feature ".to_string();
                e.append(bad.name.as_str());
                e.append(": must be an int, float, bool, or string");
                proof {
                    assert(first_bad_member(tree->Object_0, bad.name@));
                }
                Err(e)
            },
        },
    }
}

/// A feature map whose floats are finite is spelled so that reading the text gives it back, each
/// feature of the kind it had: a float that is a whole number stays a float.
pub proof fn features_read_back(
    features: Map<Seq<char>, FeatureView>,
    back: Map<Seq<char>, FeatureView>,
)
    requires
        floats_finite(features),
        spells_features(feature_members(features), back),
    ensures
        back == features,
{
    let m = feature_members(features);
    assert(m.dom() =~= features.dom());
    assert forall|k: Seq<char>| features.contains_key(k) implies #[trigger] back[k]
        == features[k] by {
        assert(m.contains_key(k));
        assert(feature_in(m[k]) == Some(features[k]));
    }
    assert(back =~= features);
}

/// Features that are written are read back as they were: a text of them decodes to the same
/// names with the same values, and nothing else.
pub proof fn written_features_are_read(
    features: Features,
    text: String,
    decoded: &str,
    r: Result<Features, String>,
)
    requires
        floats_finite(features@),
        call_ensures(encode_features, (&features,), text),
        decoded@ == text@,
        call_ensures(decode_features, (decoded,), r),
    ensures
        r is Ok,
        r->Ok_0@ == features@,
{
    let m = feature_members(features@);
    assert(reading(text@) == reads_as(JsonTree::Object(m)));
    assert(reading(decoded@) == reads_as(JsonTree::Object(m)));
    if r is Ok {
        features_read_back(features@, r->Ok_0@);
    } else {
        let name = choose|name: Seq<char>| #[trigger] first_bad_member(m, name);
        assert(first_bad_member(m, name));
        assert(features@.contains_key(name));
    }
}

/// A truth value, a number or a text is a feature, and says the same as one; nothing else is. A
/// whole number that is too large for one is taken for the nearest floating-point number.
pub proof fn features_say_what_was_spelled(t: JsonTree)
    ensures
        feature_in(t) is Some <==> t is Bool || t is Number || t is Text,
        t is Bool || t is Text ==> feature_in(t)->0.tree() == t,
        t matches JsonTree::Number(JsonNumber::Real(_)) ==> feature_in(t)->0.tree() == t,
        t matches JsonTree::Number(JsonNumber::Integer(i)) ==> i64::MIN <= i <= i64::MAX
            ==> feature_in(t)->0.tree() == t,
        t matches JsonTree::Number(JsonNumber::Integer(i)) ==> !(i64::MIN <= i <= i64::MAX)
            ==> feature_in(t)->0.tree() == JsonTree::Number(
            JsonNumber::Real(crate::json::nearest_real(i)),
        ),
        t is Bool <==> feature_in(t) is Some && feature_in(t)->0 is Bool,
        t is Text <==> feature_in(t) is Some && feature_in(t)->0 is Str,
{
}

} // verus!
