use vstd::prelude::*;

verus! {

/// A same-document pointer such as `#/components/schemas/Pet`, held as its
/// components.
#[derive(Debug)]
pub struct JsonPointer {
    components: Vec<String>,
}

#[derive(Debug)]
pub enum ParseJsonPointerError {
    NotRelative { original: String },
}

/// Whether `s` begins with the fragment marker `#/`.
pub open spec fn has_marker(s: Seq<char>) -> bool {
    s.len() >= 2 && s[0] == '#' && s[1] == '/'
}

/// `s` with every leading `#/` removed.
pub open spec fn trim_markers(s: Seq<char>) -> Seq<char>
    decreases s.len(),
{
    if has_marker(s) {
        trim_markers(s.subrange(2, s.len() as int))
    } else {
        s
    }
}

/// The pieces of `s` between the `/` separators, empty pieces included.
pub open spec fn split_slash(s: Seq<char>) -> Seq<Seq<char>>
    decreases s.len(),
{
    if s.len() == 0 {
        seq![Seq::empty()]
    } else {
        let init = split_slash(s.drop_last());
        if s.last() == '/' {
            init.push(Seq::empty())
        } else {
            init.update(init.len() - 1, init.last().push(s.last()))
        }
    }
}

/// The components of the pointer written `s`, or `None` where `s` is no
/// same-document pointer.
pub open spec fn pointer_components(s: Seq<char>) -> Option<Seq<Seq<char>>> {
    if has_marker(s) {
        Some(split_slash(trim_markers(s)))
    } else {
        None
    }
}

pub open spec fn views(v: Seq<String>) -> Seq<Seq<char>> {
    v.map_values(|c: String| c@)
}

proof fn lemma_split_slash_nonempty(s: Seq<char>)
    ensures
        split_slash(s).len() >= 1,
    decreases s.len(),
{
    if s.len() > 0 {
        lemma_split_slash_nonempty(s.drop_last());
    }
}

impl View for JsonPointer {
    type V = Seq<Seq<char>>;

    closed spec fn view(&self) -> Seq<Seq<char>> {
        views(self.components@)
    }
}

impl ParseJsonPointerError {
    /// The text that was refused.
    pub open spec fn refused_text(&self) -> Seq<char> {
        match self {
            ParseJsonPointerError::NotRelative { original } => original@,
        }
    }
}

impl JsonPointer {
    pub fn components(&self) -> (r: Vec<&str>)
        ensures
            r@.map_values(|c: &str| c@) == self@,
    {
        let mut r: Vec<&str> = Vec::new();
        let mut i: usize = 0;
        while i < self.components.len()
            invariant
                i <= self.components@.len(),
                r@.map_values(|c: &str| c@) =~= views(self.components@.subrange(0, i as int)),
            decreases self.components@.len() - i,
        {
            let c = self.components[i].as_str();
            let ghost old_r = r@;
            r.push(c);
            assert(r@.map_values(|c: &str| c@) =~= old_r.map_values(|c: &str| c@).push(c@));
            assert(self.components@.subrange(0, i + 1) =~= self.components@.subrange(
                0,
                i as int,
            ).push(self.components@[i as int]));
            assert(views(self.components@.subrange(0, i + 1)) =~= views(
                self.components@.subrange(0, i as int),
            ).push(c@));
            i = i + 1;
        }
        assert(self.components@.subrange(0, i as int) =~= self.components@);
        r
    }

    /// Parses a same-document pointer: `#/` followed by components separated
    /// by `/`.
    pub fn from_str(s: &str) -> (r: Result<JsonPointer, ParseJsonPointerError>)
        ensures
            match pointer_components(s@) {
                Some(c) => r matches Ok(p) && p@ == c,
                None => r matches Err(e) && e.refused_text() == s@,
            },
    {
        let n = s.unicode_len();
        if n < 2 || s.get_char(0) != '#' || s.get_char(1) != '/' {
            return Err(ParseJsonPointerError::NotRelative { original: s.to_owned() });
        }
        let mut start: usize = 0;
        assert(s@.subrange(0, n as int) =~= s@);
        while n - start >= 2 && s.get_char(start) == '#' && s.get_char(start + 1) == '/'
            invariant
                n == s@.len(),
                start <= n,
                trim_markers(s@.subrange(start as int, n as int)) == trim_markers(s@),
            decreases n - start,
        {
            assert(s@.subrange(start as int, n as int).subrange(2, n - start) =~= s@.subrange(
                start + 2,
                n as int,
            ));
            start = start + 2;
        }
        let ghost rest = s@.subrange(start as int, n as int);
        assert(!has_marker(rest));
        assert(trim_markers(rest) == rest);
        let mut components: Vec<String> = Vec::new();
        let mut piece: usize = start;
        let mut i: usize = start;
        assert(s@.subrange(start as int, start as int) =~= Seq::<char>::empty());
        assert(views(components@) =~= Seq::<Seq<char>>::empty());
        while i < n
            invariant
                n == s@.len(),
                start <= piece <= i <= n,
                rest == s@.subrange(start as int, n as int),
                views(components@).push(s@.subrange(piece as int, i as int)) =~= split_slash(
                    s@.subrange(start as int, i as int),
                ),
            decreases n - i,
        {
            let ghost before = s@.subrange(start as int, i as int);
            let ghost after = s@.subrange(start as int, i + 1);
            assert(after.drop_last() =~= before);
            assert(after.last() == s@[i as int]);
            proof {
                lemma_split_slash_nonempty(before);
            }
            if s.get_char(i) == '/' {
                let ghost old_components = components@;
                components.push(s.substring_char(piece, i).to_owned());
                assert(split_slash(after) == split_slash(before).push(Seq::<char>::empty()));
                assert(views(components@) =~= views(old_components).push(
                    s@.subrange(piece as int, i as int),
                ));
                piece = i + 1;
                assert(s@.subrange(piece as int, i + 1) =~= Seq::<char>::empty());
                assert(views(components@).push(s@.subrange(piece as int, i + 1)) =~= split_slash(
                    after,
                ));
            } else {
                let ghost init = split_slash(before);
                assert(split_slash(after) == init.update(
                    init.len() - 1,
                    init.last().push(s@[i as int]),
                ));
                assert(s@.subrange(piece as int, i + 1) =~= s@.subrange(piece as int, i as int).push(
                    s@[i as int],
                ));
                assert(views(components@).push(s@.subrange(piece as int, i + 1)) =~= split_slash(
                    after,
                ));
            }
            i = i + 1;
        }
        components.push(s.substring_char(piece, n).to_owned());
        assert(views(components@) =~= split_slash(rest));
        Ok(JsonPointer { components })
    }
}

} // verus!
