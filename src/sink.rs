use vstd::prelude::*;
use vstd::string::*;
use vstd::seq_lib::*;
use vstd::multiset::*;
use crate::owa::OwaResult;

verus! {

/// The line that an outcome adds to the results: the user when it exists,
/// `user:password` when the password is valid, nothing otherwise.
pub open spec fn sink_line(user: Seq<char>, password: Seq<char>, result: OwaResult) -> Seq<Seq<char>> {
    match result {
        OwaResult::UserNotFound => Seq::empty(),
        OwaResult::UserExists => seq![user],
        OwaResult::PasswordValid => seq![user + ":"@ + password],
    }
}

/// The lines that recording `events` in order adds, with password `password`.
pub open spec fn lines_of(password: Seq<char>, events: Seq<(Seq<char>, OwaResult)>) -> Seq<Seq<char>>
    decreases events.len(),
{
    if events.len() == 0 {
        Seq::empty()
    } else {
        lines_of(password, events.drop_last()) + sink_line(events.last().0, password, events.last().1)
    }
}

/// The lines reporting users that exist or whose password is valid, appended
/// as outcomes arrive.
#[derive(Debug)]
pub struct ResultSink {
    lines: Vec<String>,
}

impl ResultSink {
    pub closed spec fn view(&self) -> Seq<Seq<char>> {
        self.lines@.map_values(|s: String| s@)
    }

    pub fn new() -> (r: Self)
        ensures
            r.view() == Seq::<Seq<char>>::empty(),
    {
        let r = ResultSink { lines: Vec::new() };
        assert(r.view() =~= Seq::<Seq<char>>::empty());
        r
    }

    /// Records the outcome for `user`, tried with `password`.
    pub fn record(&mut self, user: &str, password: &str, result: OwaResult)
        ensures
            final(self).view() == old(self).view() + sink_line(user@, password@, result),
    {
        let ghost before = self.view();
        match result {
            OwaResult::UserNotFound => {},
            OwaResult::UserExists => {
                self.lines.push(String::from_str(user));
            },
            OwaResult::PasswordValid => {
                self.lines.push(String::from_str(user).concat(":").concat(password));
            },
        }
        assert(self.view() =~= before + sink_line(user@, password@, result));
    }

    /// The lines recorded so far, in order.
    pub fn lines(&self) -> (r: Vec<String>)
        ensures
            r@.map_values(|s: String| s@) == self.view(),
    {
        self.lines.clone()
    }

    /// The text written out: each line followed by a newline.
    pub fn contents(&self) -> (r: String)
        ensures
            r@ == joined(self.view()),
    {
        let mut out = String::new();
        let mut i: usize = 0;
        while i < self.lines.len()
            invariant
                i <= self.lines@.len(),
                out@ == joined(self.view().subrange(0, i as int)),
            decreases self.lines@.len() - i,
        {
            proof {
                assert(self.view().subrange(0, i + 1).drop_last() =~= self.view().subrange(0, i as int));
            }
            out.append(self.lines[i].as_str());
            out.append("\n");
            i = i + 1;
        }
        assert(self.view().subrange(0, i as int) =~= self.view());
        out
    }
}

/// Lines joined, each ended by a newline.
pub open spec fn joined(lines: Seq<Seq<char>>) -> Seq<char>
    decreases lines.len(),
{
    if lines.len() == 0 {
        Seq::empty()
    } else {
        joined(lines.drop_last()) + lines.last() + "\n"@
    }
}

/// Taking one event out of a run takes its line out of the recorded lines.
proof fn lines_without(password: Seq<char>, b: Seq<(Seq<char>, OwaResult)>, j: int)
    requires
        0 <= j < b.len(),
    ensures
        lines_of(password, b).to_multiset() == lines_of(password, b.remove(j)).to_multiset().add(
            sink_line(b[j].0, password, b[j].1).to_multiset(),
        ),
    decreases b.len(),
{
    broadcast use group_multiset_axioms;

    let last = b.last();
    let ll = sink_line(last.0, password, last.1);
    lemma_multiset_commutative(lines_of(password, b.drop_last()), ll);
    if j == b.len() - 1 {
        assert(b.remove(j) =~= b.drop_last());
    } else {
        let r = b.remove(j);
        lines_without(password, b.drop_last(), j);
        assert(r.drop_last() =~= b.drop_last().remove(j));
        assert(r.last() == last);
        lemma_multiset_commutative(lines_of(password, r.drop_last()), ll);
        let xj = sink_line(b[j].0, password, b[j].1).to_multiset();
        let base = lines_of(password, b.drop_last().remove(j)).to_multiset();
        assert(b.drop_last()[j] == b[j]);
        assert(lines_of(password, b).to_multiset() =~= base.add(xj).add(ll.to_multiset()));
        assert(lines_of(password, r).to_multiset() =~= base.add(ll.to_multiset()));
        assert(base.add(xj).add(ll.to_multiset()) =~= base.add(ll.to_multiset()).add(xj));
    }
}

/// The lines recorded for a batch of outcomes do not depend on the order in
/// which the outcomes arrive: any two orders of the same outcomes, as workers
/// of a pool of any size may deliver them, record the same lines, counted
/// with their repetitions.
pub proof fn lines_independent_of_order(
    password: Seq<char>,
    a: Seq<(Seq<char>, OwaResult)>,
    b: Seq<(Seq<char>, OwaResult)>,
)
    requires
        a.to_multiset() == b.to_multiset(),
    ensures
        lines_of(password, a).to_multiset() == lines_of(password, b).to_multiset(),
    decreases a.len(),
{
    broadcast use group_multiset_axioms, group_to_multiset_ensures;

    if a.len() == 0 {
        assert(b.to_multiset().len() == 0);
        assert(b =~= Seq::<(Seq<char>, OwaResult)>::empty());
    } else {
        let x = a.last();
        let rest = a.drop_last();
        assert(a =~= rest.push(x));
        assert(a.to_multiset().count(x) > 0) by {
            assert(a.contains(x)) by { assert(a[a.len() - 1] == x); }
        }
        assert(b.contains(x));
        let j = choose|j: int| 0 <= j < b.len() && b[j] == x;
        let br = b.remove(j);
        assert(br.to_multiset() =~= rest.to_multiset()) by {
            assert(br.to_multiset() == b.to_multiset().remove(x));
            assert(a.to_multiset() == rest.to_multiset().insert(x));
        }
        lines_independent_of_order(password, rest, br);
        lines_without(password, b, j);
        lemma_multiset_commutative(lines_of(password, rest), sink_line(x.0, password, x.1));
    }
}

} // verus!
