//! The template resolver. A policy template names keys by placeholders, `$` followed
//! by a name; resolving it puts a value in the place of each placeholder, in one
//! pass from left to right, so that no value is ever searched for placeholders.

use vstd::prelude::*;
use vstd::string::{StrSliceExecFns, StringExecFns};

verus! {

/// A value for the placeholder `$name`.
#[derive(Clone, Debug, PartialEq, Eq)]
pub struct Binding {
    /// The placeholder's name, without the `$`.
    pub name: String,
    /// What takes the placeholder's place.
    pub value: String,
}

/// The mathematical value of a [`Binding`].
pub ghost struct BindingView {
    pub name: Seq<char>,
    pub value: Seq<char>,
}

impl View for Binding {
    type V = BindingView;

    open spec fn view(&self) -> BindingView {
        BindingView { name: self.name@, value: self.value@ }
    }
}

/// The values of `bindings`, in order.
pub open spec fn bindings_of(bindings: Seq<Binding>) -> Seq<BindingView> {
    Seq::new(bindings.len(), |i: int| bindings[i]@)
}

/// The placeholder `$name` stands in `template` at position `at`.
pub open spec fn token_at(template: Seq<char>, at: int, name: Seq<char>) -> bool {
    &&& 0 <= at
    &&& at + 1 + name.len() <= template.len()
    &&& template[at] == '$'
    &&& template.subrange(at + 1, at + 1 + name.len()) == name
}

/// The placeholder `$name` stands somewhere in `template`.
pub open spec fn mentions(template: Seq<char>, name: Seq<char>) -> bool {
    exists|at: int| token_at(template, at, name)
}

/// The first binding, from index `from` on, whose placeholder stands in `template`
/// at position `at`.
pub open spec fn match_from(
    template: Seq<char>,
    bindings: Seq<BindingView>,
    at: int,
    from: int,
) -> Option<int>
    decreases bindings.len() - from,
{
    if from < 0 || from >= bindings.len() {
        None
    } else if token_at(template, at, bindings[from].name) {
        Some(from)
    } else {
        match_from(template, bindings, at, from + 1)
    }
}

/// The resolved text of `template` from position `at` on: where the placeholder of a
/// binding stands, the value of the first such binding, and the rest resolved from
/// behind the placeholder; anywhere else the character itself, and the rest resolved
/// from the next position.
pub open spec fn resolved_from(template: Seq<char>, bindings: Seq<BindingView>, at: int) -> Seq<
    char,
>
    decreases
        (if at < template.len() {
            template.len() - at
        } else {
            0
        }),
{
    if at < 0 || at >= template.len() {
        Seq::empty()
    } else {
        match match_from(template, bindings, at, 0) {
            Some(k) => bindings[k].value + resolved_from(
                template,
                bindings,
                at + 1 + bindings[k].name.len(),
            ),
            None => seq![template[at]] + resolved_from(template, bindings, at + 1),
        }
    }
}

/// The resolved text of `template`.
pub open spec fn resolved(template: Seq<char>, bindings: Seq<BindingView>) -> Seq<char> {
    resolved_from(template, bindings, 0)
}

/// A match is the index of a binding whose placeholder stands there.
pub proof fn lemma_match_from(
    template: Seq<char>,
    bindings: Seq<BindingView>,
    at: int,
    from: int,
)
    requires
        0 <= from,
    ensures
        match_from(template, bindings, at, from) matches Some(k) ==> from <= k < bindings.len()
            && token_at(template, at, bindings[k].name),
        match_from(template, bindings, at, from) is None ==> forall|k: int|
            from <= k < bindings.len() ==> !token_at(template, at, #[trigger] bindings[k].name),
    decreases bindings.len() - from,
{
    if from < bindings.len() && !token_at(template, at, bindings[from].name) {
        lemma_match_from(template, bindings, at, from + 1);
    }
}

/// The characters of `text`.
pub fn chars_of(text: &str) -> (chars: Vec<char>)
    ensures
        chars@ == text@,
{
    let mut chars: Vec<char> = Vec::new();
    for c in it: text.chars()
        invariant
            it.seq() == text@,
            chars@ == text@.take(it.index()),
    {
        chars.push(c);
        assert(text@.take(it.index() + 1) == text@.take(it.index()).push(c));
    }
    assert(text@.take(text@.len() as int) == text@);
    chars
}

/// Whether the placeholder `$name` stands in `template` at position `at`.
pub fn token_stands_at(template: &Vec<char>, at: usize, name: &Vec<char>) -> (stands: bool)
    ensures
        stands == token_at(template@, at as int, name@),
{
    if at >= template.len() || name.len() > template.len() - at - 1 {
        return false;
    }
    if template[at] != '$' {
        return false;
    }
    let ghost part = template@.subrange(at + 1, at + 1 + name.len());
    let mut i: usize = 0;
    while i < name.len()
        invariant
            i <= name.len(),
            at + 1 + name.len() <= template.len(),
            part == template@.subrange(at + 1, at + 1 + name.len()),
            part.take(i as int) == name@.take(i as int),
        decreases name.len() - i,
    {
        if template[at + 1 + i] != name[i] {
            assert(part[i as int] != name@[i as int]);
            return false;
        }
        assert(part.take(i + 1) == part.take(i as int).push(part[i as int]));
        assert(name@.take(i + 1) == name@.take(i as int).push(name@[i as int]));
        i += 1;
    }
    assert(part.take(name.len() as int) == part);
    assert(name@.take(name.len() as int) == name@);
    true
}

/// Whether the placeholder `$name` stands somewhere in `template`.
pub fn template_mentions(template: &str, name: &str) -> (found: bool)
    ensures
        found == mentions(template@, name@),
{
    let text = chars_of(template);
    let token = chars_of(name);
    let mut at: usize = 0;
    while at < text.len()
        invariant
            at <= text.len(),
            text@ == template@,
            token@ == name@,
            forall|p: int| 0 <= p < at ==> !token_at(text@, p, token@),
        decreases text.len() - at,
    {
        if token_stands_at(&text, at, &token) {
            assert(token_at(template@, at as int, name@));
            return true;
        }
        at += 1;
    }
    false
}

/// The index of the first binding whose placeholder stands in `template` at `at`.
fn first_match(template: &Vec<char>, names: &Vec<Vec<char>>, at: usize, Ghost(bindings): Ghost<
    Seq<BindingView>,
>) -> (found: Option<usize>)
    requires
        names@.len() == bindings.len(),
        forall|k: int| 0 <= k < names@.len() ==> (#[trigger] names@[k])@ == bindings[k].name,
    ensures
        found is Some <==> match_from(template@, bindings, at as int, 0) is Some,
        found matches Some(k) ==> match_from(template@, bindings, at as int, 0) == Some(k as int),
{
    let mut k: usize = 0;
    while k < names.len()
        invariant
            k <= names.len(),
            names@.len() == bindings.len(),
            forall|j: int| 0 <= j < names@.len() ==> (#[trigger] names@[j])@ == bindings[j].name,
            match_from(template@, bindings, at as int, 0) == match_from(
                template@,
                bindings,
                at as int,
                k as int,
            ),
        decreases names.len() - k,
    {
        if token_stands_at(template, at, &names[k]) {
            return Some(k);
        }
        k += 1;
    }
    None
}

/// Resolves `template`: every placeholder that a binding names gives way to the
/// binding's value, and everything else stays as it is. Where the placeholders of
/// several bindings stand at one position, the first binding decides.
pub fn resolve(template: &str, bindings: &Vec<Binding>) -> (text: String)
    ensures
        text@ == resolved(template@, bindings_of(bindings@)),
{
    let ghost views = bindings_of(bindings@);
    let chars = chars_of(template);
    let mut names: Vec<Vec<char>> = Vec::new();
    let mut n: usize = 0;
    while n < bindings.len()
        invariant
            n <= bindings.len(),
            names.len() == n,
            views == bindings_of(bindings@),
            forall|k: int| 0 <= k < n ==> (#[trigger] names@[k])@ == views[k].name,
        decreases bindings.len() - n,
    {
        names.push(chars_of(bindings[n].name.as_str()));
        n += 1;
    }
    let mut text = String::new();
    let mut kept: usize = 0;
    let mut at: usize = 0;
    while at < chars.len()
        invariant
            kept <= at <= chars.len(),
            chars@ == template@,
            views == bindings_of(bindings@),
            names@.len() == views.len(),
            forall|k: int| 0 <= k < names@.len() ==> (#[trigger] names@[k])@ == views[k].name,
            text@ + chars@.subrange(kept as int, at as int) + resolved_from(
                chars@,
                views,
                at as int,
            ) == resolved(chars@, views),
        decreases chars.len() - at,
    {
        proof {
            lemma_match_from(chars@, views, at as int, 0);
        }
        match first_match(&chars, &names, at, Ghost(views)) {
            Some(k) => {
                text.append(template.substring_char(kept, at));
                text.append(bindings[k].value.as_str());
                at = at + 1 + names[k].len();
                kept = at;
                assert(chars@.subrange(kept as int, at as int) == Seq::<char>::empty());
            },
            None => {
                assert(chars@.subrange(kept as int, at + 1) == chars@.subrange(
                    kept as int,
                    at as int,
                ) + seq![chars@[at as int]]);
                at += 1;
            },
        }
    }
    text.append(template.substring_char(kept, at));
    text
}

} // verus!
