//! The world-fact matcher: which world rules bear on an assertion, by
//! case-insensitive keyword containment.
use crate::continuity::assertion::{AssertionModel, AttributeAssertion};
use crate::continuity::position::scene_index;
use crate::continuity::position::find_scene;
use crate::continuity::store::{NarrativeStore, RuleModel, StoreModel, WorldRuleRecord};
use crate::continuity::text::{
    char_views, contains_exec, contains_folded, fold, fold_vec, folded_chars, words, words_of,
};
use vstd::prelude::*;

verus! {

/// The keywords of a rule: the words of its keyword text.
pub open spec fn keywords(rule: RuleModel) -> Seq<Seq<char>> {
    words(rule.keywords)
}

/// The content or outline of the assertion's scene holds the keyword.
pub open spec fn scene_mentions(store: StoreModel, scene: Seq<char>, w: Seq<char>) -> bool {
    match scene_index(store.scenes, scene) {
        Some(i) => contains_folded(store.scenes[i].content, w) || contains_folded(
            store.scenes[i].outline,
            w,
        ),
        None => false,
    }
}

/// The keyword occurs in the attribute name, the value or the scene's text.
pub open spec fn keyword_hits(store: StoreModel, a: AssertionModel, w: Seq<char>) -> bool {
    contains_folded(a.attribute, w) || contains_folded(a.value, w) || scene_mentions(
        store,
        a.scene,
        w,
    )
}

/// Some keyword of the rule hits the assertion.
pub open spec fn rule_matches(store: StoreModel, rule: RuleModel, a: AssertionModel) -> bool {
    exists|k: int| 0 <= k < keywords(rule).len() && keyword_hits(store, a, #[trigger] keywords(rule)[k])
}

/// The rules among the first `n` that match the assertion, by index.
pub open spec fn matching_upto(store: StoreModel, a: AssertionModel, n: int) -> Seq<usize>
    decreases n,
{
    if n <= 0 {
        Seq::empty()
    } else if rule_matches(store, store.rules[n - 1], a) {
        matching_upto(store, a, n - 1).push((n - 1) as usize)
    } else {
        matching_upto(store, a, n - 1)
    }
}

/// Whether the assertion's texts hold a keyword; the keyword, attribute
/// and value are given lower-cased.
fn hits(
    store: &NarrativeStore,
    a: &AttributeAssertion,
    w: &Vec<char>,
    attribute: &Vec<char>,
    value: &Vec<char>,
) -> (r: bool)
    requires
        attribute@ == fold(a.attribute@),
        value@ == fold(a.value@),
    ensures
        r == keyword_hits(store@, a@, w@),
{
    let fw = fold_vec(w);
    if contains_exec(attribute, &fw) || contains_exec(value, &fw) {
        return true;
    }
    match find_scene(&store.scenes, &a.scene_id) {
        Some(i) => {
            let content = folded_chars(store.scenes[i].content.as_str());
            let outline = folded_chars(store.scenes[i].outline.as_str());
            assert(store@.scenes[i as int] == store.scenes@[i as int]@);
            contains_exec(&content, &fw) || contains_exec(&outline, &fw)
        },
        None => false,
    }
}

/// The rule bears on the assertion.
pub fn matches_rule(store: &NarrativeStore, rule: &WorldRuleRecord, a: &AttributeAssertion) -> (r:
    bool)
    ensures
        r == rule_matches(store@, rule@, a@),
{
    let ws = words_of(rule.keywords.as_str());
    let attribute = folded_chars(a.attribute.as_str());
    let value = folded_chars(a.value.as_str());
    let mut k: usize = 0;
    while k < ws.len()
        invariant
            k <= ws.len(),
            char_views(ws@) == keywords(rule@),
            attribute@ == fold(a.attribute@),
            value@ == fold(a.value@),
            forall|j: int| 0 <= j < k ==> !keyword_hits(store@, a@, #[trigger] keywords(rule@)[j]),
        decreases ws.len() - k,
    {
        assert(keywords(rule@)[k as int] == ws@[k as int]@);
        if hits(store, a, &ws[k], &attribute, &value) {
            return true;
        }
        k = k + 1;
    }
    false
}

/// The indices of the store's rules that bear on the assertion, in order.
pub fn matching_rules(store: &NarrativeStore, a: &AttributeAssertion) -> (r: Vec<usize>)
    ensures
        r@ == matching_upto(store@, a@, store@.rules.len() as int),
{
    let mut out: Vec<usize> = Vec::new();
    let mut i: usize = 0;
    while i < store.rules.len()
        invariant
            i <= store.rules.len(),
            out@ == matching_upto(store@, a@, i as int),
        decreases store.rules.len() - i,
    {
        assert(store@.rules[i as int] == store.rules@[i as int]@);
        if matches_rule(store, &store.rules[i], a) {
            out.push(i);
        }
        i = i + 1;
    }
    out
}

} // verus!
