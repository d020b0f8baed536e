//! The exact protocol lines the server sends, as spec-level character
//! sequences and verified builders for each.

use vstd::prelude::*;

verus! {

use vstd::string::StringExecFns;

/// The admission prompt.
pub open spec fn prompt_text() -> Seq<char> {
    "Name?"@
}

/// The rejection line for a name that fails the format rules; it echoes the
/// raw candidate back verbatim.
pub open spec fn invalid_text(name: Seq<char>) -> Seq<char> {
    "Name "@ + name + " is invalid"@
}

/// The rejection line for a name already present in the room.
pub open spec fn taken_text() -> Seq<char> {
    "Name is taken"@
}

/// The occupant names joined with a comma and a space.
pub open spec fn joined(names: Seq<Seq<char>>) -> Seq<char>
    decreases names.len(),
{
    if names.len() == 0 {
        Seq::empty()
    } else if names.len() == 1 {
        names[0]
    } else {
        names[0] + ", "@ + joined(names.drop_first())
    }
}

/// The welcome snapshot sent to a newly admitted client.
pub open spec fn welcome_text(occupants: Seq<Seq<char>>) -> Seq<char> {
    "* The room contains: "@ + joined(occupants)
}

/// The notice broadcast when `name` is admitted.
pub open spec fn entered_text(name: Seq<char>) -> Seq<char> {
    "* "@ + name + " has entered the room"@
}

/// The notice broadcast when `name` leaves.
pub open spec fn left_text(name: Seq<char>) -> Seq<char> {
    "* "@ + name + " has left the room"@
}

/// A chat line from `name`, as every other occupant sees it.
pub open spec fn chat_text(name: Seq<char>, line: Seq<char>) -> Seq<char> {
    "["@ + name + "] "@ + line
}

pub fn prompt_line() -> (r: String)
    ensures
        r@ == prompt_text(),
{
    String::from_str("Name?")
}

pub fn invalid_line(name: &str) -> (r: String)
    ensures
        r@ == invalid_text(name@),
{
    let mut r = String::from_str("Name ");
    r.append(name);
    r.append(" is invalid");
    r
}

pub fn taken_line() -> (r: String)
    ensures
        r@ == taken_text(),
{
    String::from_str("Name is taken")
}

/// Appending one more name extends the joined list with a separator.
proof fn lemma_joined_push(names: Seq<Seq<char>>, extra: Seq<char>)
    ensures
        joined(names.push(extra)) == if names.len() == 0 {
            extra
        } else {
            joined(names) + ", "@ + extra
        },
    decreases names.len(),
{
    let pushed = names.push(extra);
    if names.len() == 0 {
        assert(pushed.len() == 1);
        assert(pushed[0] == extra);
    } else {
        lemma_joined_push(names.drop_first(), extra);
        assert(pushed.drop_first() =~= names.drop_first().push(extra));
        if names.len() == 1 {
            assert(joined(names) == names[0]);
        }
    }
}

pub fn joined_line(names: &Vec<String>) -> (r: String)
    ensures
        r@ == joined(names.deep_view()),
{
    let ghost all = names.deep_view();
    let mut r = String::new();
    let mut i: usize = 0;
    while i < names.len()
        invariant
            i <= names@.len(),
            all == names.deep_view(),
            all.len() == names@.len(),
            r@ == joined(all.take(i as int)),
        decreases names@.len() - i,
    {
        if i > 0 {
            r.append(", ");
        }
        r.append(names[i].as_str());
        proof {
            lemma_joined_push(all.take(i as int), all[i as int]);
            assert(all.take(i as int).push(all[i as int]) =~= all.take(i + 1));
            assert(names@[i as int]@ == all[i as int]);
        }
        i += 1;
    }
    proof {
        assert(all.take(names@.len() as int) =~= all);
    }
    r
}

pub fn welcome_line(occupants: &Vec<String>) -> (r: String)
    ensures
        r@ == welcome_text(occupants.deep_view()),
{
    let mut r = String::from_str("* The room contains: ");
    let rest = joined_line(occupants);
    r.append(rest.as_str());
    r
}

pub fn entered_line(name: &str) -> (r: String)
    ensures
        r@ == entered_text(name@),
{
    let mut r = String::from_str("* ");
    r.append(name);
    r.append(" has entered the room");
    r
}

pub fn left_line(name: &str) -> (r: String)
    ensures
        r@ == left_text(name@),
{
    let mut r = String::from_str("* ");
    r.append(name);
    r.append(" has left the room");
    r
}

pub fn chat_line(name: &str, line: &str) -> (r: String)
    ensures
        r@ == chat_text(name@, line@),
{
    let mut r = String::from_str("[");
    r.append(name);
    r.append("] ");
    r.append(line);
    r
}

} // verus!
