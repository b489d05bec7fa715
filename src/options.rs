use vstd::prelude::*;

verus! {

/// An ordered list of options that a user rearranges.
pub struct Options<Opt>(pub Vec<Opt>);

impl<Opt> Options<Opt> {
    pub fn new(opts: Vec<Opt>) -> (r: Options<Opt>)
        ensures
            r.0@ == opts@,
    {
        Options(opts)
    }

    /// Appends `opt`.
    pub fn add(self, opt: Opt) -> (r: Options<Opt>)
        ensures
            r.0@ == self.0@.push(opt),
    {
        let mut v = self.0;
        v.push(opt);
        Options(v)
    }

    /// Swaps the option at `index` with the one before it; the first option,
    /// or an index past the end, stays where it is.
    pub fn move_up(self, index: usize) -> (r: Options<Opt>)
        ensures
            (0 < index < self.0@.len()) ==> r.0@ == self.0@.update(index - 1, self.0@[index as int]).update(
                index as int,
                self.0@[index - 1],
            ),
            !(0 < index < self.0@.len()) ==> r.0@ == self.0@,
    {
        let ghost s = self.0@;
        let mut v = self.0;
        if index > 0 && index < v.len() {
            let x = v.remove(index);
            v.insert(index - 1, x);
            assert(v@ =~= s.update(index - 1, s[index as int]).update(index as int, s[index - 1]));
        }
        Options(v)
    }

    /// Swaps the option at `index` with the one after it; the last option,
    /// or an index past the end, stays where it is.
    pub fn move_down(self, index: usize) -> (r: Options<Opt>)
        ensures
            (index + 1 < self.0@.len()) ==> r.0@ == self.0@.update(index + 1, self.0@[index as int]).update(
                index as int,
                self.0@[index + 1],
            ),
            !(index + 1 < self.0@.len()) ==> r.0@ == self.0@,
    {
        let ghost s = self.0@;
        let mut v = self.0;
        if index < v.len() && index + 1 < v.len() {
            let x = v.remove(index);
            v.insert(index + 1, x);
            assert(v@ =~= s.update(index + 1, s[index as int]).update(index as int, s[index + 1]));
        }
        Options(v)
    }

    /// Removes the option at `index`; an index past the end changes nothing.
    pub fn remove(self, index: usize) -> (r: Options<Opt>)
        ensures
            index < self.0@.len() ==> r.0@ == self.0@.remove(index as int),
            index >= self.0@.len() ==> r.0@ == self.0@,
    {
        let mut v = self.0;
        if index < v.len() {
            v.remove(index);
        }
        Options(v)
    }

    pub fn into_inner(self) -> (r: Vec<Opt>)
        ensures
            r@ == self.0@,
    {
        self.0
    }
}

} // verus!
