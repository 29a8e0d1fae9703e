use vstd::prelude::*;
use crate::session::SessionData;
use crate::text::{chars_of, string_of};

verus! {

/// Calories and protein are stored in hundredths, as integers.
pub const SCALE: i32 = 100;

/// A stored food: calories and protein per 100 g, in hundredths.
#[derive(Clone, Debug)]
pub struct Food {
    pub id: i32,
    pub name: String,
    pub calories: i32,
    pub protein: i32,
}

/// A food to be stored; the store assigns its identifier.
#[derive(Clone, Debug)]
pub struct NewFood {
    pub name: String,
    pub calories: i32,
    pub protein: i32,
}

/// A search result as shown: calories and protein per 100 g, in whole grams.
#[derive(Clone, Debug)]
pub struct FoodRow {
    pub name: String,
    pub calories: i32,
    pub protein: i32,
}

/// A meal; nothing creates or reads one yet.
#[derive(Clone, Debug)]
pub struct Meal {
    pub id: i32,
    pub name: String,
}

/// Ties a food to a meal.
#[derive(Clone, Copy, Debug, PartialEq, Eq, Structural)]
pub struct MealFood {
    pub food_id: i32,
    pub meal_id: i32,
}

/// An amount that can be stored once scaled: non-negative, and its hundredfold
/// fits an `i32`.
pub open spec fn storable(v: int) -> bool {
    0 <= v && v * 100 <= i32::MAX
}

/// A stored amount as shown: divided by the scale, rounded toward zero.
pub open spec fn shown(stored: int) -> int {
    if stored >= 0 {
        stored / 100
    } else {
        -((-stored) / 100)
    }
}

/// An amount in hundredths, when it can be stored.
pub fn scale_amount(v: i32) -> (r: Option<i32>)
    ensures
        r is Some <==> storable(v as int),
        r is Some ==> r->0 as int == v as int * 100,
{
    if v < 0 || v > 21474836 {
        None
    } else {
        Some(v * SCALE)
    }
}

/// A stored amount as shown.
pub fn display_amount(stored: i32) -> (r: i32)
    ensures
        r as int == shown(stored as int),
{
    if stored >= 0 {
        stored / SCALE
    } else {
        let m = (0 - (stored as i64)) / 100;
        (0 - m) as i32
    }
}

/// What a food-creation request leads to.
#[derive(Clone, Debug)]
pub enum FoodPlan {
    /// No one is logged in: send the client back to the sign-in page.
    NoSession,
    /// An amount is negative or too large to store.
    Invalid,
    /// Store this food.
    Insert(NewFood),
}

/// Decides a food-creation request: without a session nothing is stored and
/// the client is sent back; otherwise calories and protein (grams per 100 g)
/// are scaled by one hundred for storage.
pub fn plan_food(session: Option<SessionData>, name: String, calories: i32, protein: i32) -> (r:
    FoodPlan)
    ensures
        session is None ==> r is NoSession,
        session is Some && !(storable(calories as int) && storable(protein as int)) ==> r is Invalid,
        session is Some && storable(calories as int) && storable(protein as int) ==> (r is Insert
            && r->Insert_0.name == name && r->Insert_0.calories as int == calories as int * 100
            && r->Insert_0.protein as int == protein as int * 100),
{
    if session.is_none() {
        return FoodPlan::NoSession;
    }
    match (scale_amount(calories), scale_amount(protein)) {
        (Some(c), Some(p)) => FoodPlan::Insert(NewFood { name, calories: c, protein: p }),
        _ => FoodPlan::Invalid,
    }
}

/// `p` is a prefix of `s`.
pub open spec fn starts_with(s: Seq<char>, p: Seq<char>) -> bool {
    p.len() <= s.len() && s.take(p.len() as int) == p
}

/// The stored foods whose name starts with `p`, in the order given.
pub open spec fn matching(stored: Seq<Food>, p: Seq<char>) -> Seq<Food> {
    stored.filter(|f: Food| starts_with(f.name@, p))
}

/// `r` shows `f`.
pub open spec fn shows(r: FoodRow, f: Food) -> bool {
    r.name@ == f.name@ && r.calories as int == shown(f.calories as int) && r.protein as int
        == shown(f.protein as int)
}

/// The pattern that asks the store for names starting with `prefix`; the
/// store may answer with more (it may ignore case, or read `%` and `_` in
/// `prefix` as wildcards), which `search_rows` then drops.
pub fn like_pattern(prefix: &str) -> (r: String)
    ensures
        r@ == prefix@.push('%'),
{
    let mut v = chars_of(prefix);
    v.push('%');
    string_of(&v)
}

fn has_prefix(s: &Vec<char>, p: &Vec<char>) -> (r: bool)
    ensures
        r == starts_with(s@, p@),
{
    if p.len() > s.len() {
        return false;
    }
    let mut i: usize = 0;
    while i < p.len()
        invariant
            i <= p@.len() <= s@.len(),
            s@.take(i as int) == p@.take(i as int),
        decreases p@.len() - i,
    {
        if s[i] != p[i] {
            assert(s@.take(p@.len() as int)[i as int] != p@[i as int]);
            return false;
        }
        assert(s@.take(i + 1) =~= s@.take(i as int).push(s@[i as int]));
        assert(p@.take(i + 1) =~= p@.take(i as int).push(p@[i as int]));
        i = i + 1;
    }
    assert(p@.take(i as int) =~= p@);
    true
}

/// Prefix search: the stored foods whose name starts with `prefix` (case
/// counts), in the order given, each shown in whole grams. No match gives no
/// rows.
pub fn search_rows(stored: &Vec<Food>, prefix: &str) -> (r: Vec<FoodRow>)
    ensures
        r@.len() == matching(stored@, prefix@).len(),
        forall|i: int| 0 <= i < r@.len() ==> shows(#[trigger] r@[i], matching(stored@, prefix@)[i]),
{
    let p = chars_of(prefix);
    let ghost pred = |f: Food| starts_with(f.name@, prefix@);
    let mut rows: Vec<FoodRow> = Vec::new();
    let mut i: usize = 0;
    assert(stored@.take(0).filter(pred) =~= Seq::<Food>::empty()) by {
        reveal(Seq::filter);
    }
    while i < stored.len()
        invariant
            i <= stored@.len(),
            p@ == prefix@,
            pred == (|f: Food| starts_with(f.name@, prefix@)),
            rows@.len() == stored@.take(i as int).filter(pred).len(),
            forall|k: int|
                0 <= k < rows@.len() ==> shows(
                    #[trigger] rows@[k],
                    stored@.take(i as int).filter(pred)[k],
                ),
        decreases stored@.len() - i,
    {
        let f = &stored[i];
        let ghost before = stored@.take(i as int).filter(pred);
        assert(stored@.take(i + 1).drop_last() =~= stored@.take(i as int));
        assert(stored@.take(i + 1).last() == stored@[i as int]);
        reveal(Seq::filter);
        if has_prefix(&chars_of(f.name.as_str()), &p) {
            let row = FoodRow {
                name: f.name.clone(),
                calories: display_amount(f.calories),
                protein: display_amount(f.protein),
            };
            rows.push(row);
            assert(stored@.take(i + 1).filter(pred) == before.push(stored@[i as int]));
        } else {
            assert(stored@.take(i + 1).filter(pred) == before);
        }
        i = i + 1;
    }
    assert(stored@.take(i as int) =~= stored@);
    rows
}

/// Scaling an amount for storage and showing it again gives the amount back
/// (52 g is stored as 5200 and shown as 52).
pub proof fn lemma_scale_round_trip(v: int)
    requires
        storable(v),
    ensures
        shown(v * 100) == v,
{
    assert((v * 100) / 100 == v) by (nonlinear_arith);
}

/// The search keeps exactly the stored foods whose name starts with the
/// prefix: each one it keeps was stored and has the prefix, and each stored
/// food with the prefix is kept.
pub proof fn lemma_search_exact(stored: Seq<Food>, p: Seq<char>)
    ensures
        forall|i: int|
            0 <= i < matching(stored, p).len() ==> stored.contains(
                #[trigger] matching(stored, p)[i],
            ) && starts_with(matching(stored, p)[i].name@, p),
        forall|i: int|
            0 <= i < stored.len() && starts_with((#[trigger] stored[i]).name@, p)
                ==> matching(stored, p).contains(stored[i]),
{
    broadcast use vstd::seq_lib::group_filter_ensures;

    let pred = |f: Food| starts_with(f.name@, p);
    assert forall|i: int| 0 <= i < matching(stored, p).len() implies stored.contains(
        #[trigger] matching(stored, p)[i],
    ) && starts_with(matching(stored, p)[i].name@, p) by {
        let m = stored.filter(pred);
        assert(m.contains(m[i]));
        stored.lemma_filter_contains_rev(pred, m[i]);
    }
    assert forall|i: int|
        0 <= i < stored.len() && starts_with((#[trigger] stored[i]).name@, p) implies matching(
        stored,
        p,
    ).contains(stored[i]) by {
        stored.lemma_filter_contains(pred, i);
    }
}

} // verus!
