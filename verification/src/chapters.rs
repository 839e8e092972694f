//! The chapter roster: an ordered list of named sub-groups, each mapped to
//! the platform role that joining it grants. The position of a chapter in
//! the roster is its externally visible index, the number a member types
//! into the registration form.

use vstd::prelude::*;
use vstd::string::*;
use crate::decimal::decimal_digits;
use crate::decimal::encode_u64;
use crate::text::lemma_lex_leq_total;
use crate::text::lemma_lex_leq_trans;
use crate::text::lex_leq;
use crate::text::spaces;
use crate::text::str_eq;
use crate::text::str_leq;

verus! {

broadcast use vstd::seq_lib::group_to_multiset_ensures;

/// One selectable sub-group, mapped to a platform role.
#[derive(Debug, Clone)]
pub struct Chapter {
    pub name: String,
    pub role_id: u64,
}

impl Chapter {
    /// The platform role that membership in this chapter grants.
    pub fn get_role_id(&self) -> (r: u64)
        ensures
            r == self.role_id,
    {
        self.role_id
    }
}

/// Whether the roster is in lexicographic order of chapter names.
pub open spec fn sorted_by_name(s: Seq<Chapter>) -> bool {
    forall|i: int, j: int|
        0 <= i < j < s.len() ==> lex_leq(#[trigger] s[i].name@, #[trigger] s[j].name@)
}

/// One line fragment of the rendered roster: the bracketed index, the
/// name, blank padding on even rows for short names, an extra blank for
/// single-digit indices, and a line break after every second entry.
pub open spec fn list_entry(id: int, c: Chapter) -> Seq<char> {
    seq!['['] + decimal_digits(id as nat) + seq![']', ' '] + c.name@ + (if id % 2 == 0
        && c.name@.len() < 16 {
        Seq::new((16 - c.name@.len()) as nat, |k: int| ' ')
    } else {
        Seq::<char>::empty()
    }) + (if id < 10 {
        seq![' ']
    } else {
        Seq::<char>::empty()
    }) + (if id % 2 == 1 {
        seq!['\n']
    } else {
        Seq::<char>::empty()
    })
}

/// The first `i` entries of the rendered roster.
pub open spec fn list_entries(s: Seq<Chapter>, i: int) -> Seq<char>
    decreases i,
{
    if i <= 0 {
        Seq::<char>::empty()
    } else {
        list_entries(s, i - 1) + list_entry(i - 1, s[i - 1])
    }
}

/// The whole rendered roster, between its heading and its closing fence.
pub open spec fn formatted_list(s: Seq<Chapter>) -> Seq<char> {
    "Available Chapters:\n\n```"@ + list_entries(s, s.len() as int) + "\n```"@
}

/// The chapter roster. The position of a chapter is its index.
#[derive(Debug, Clone)]
pub struct Chapters {
    pub chapters: Vec<Chapter>,
}

impl Chapters {
    /// Adds a chapter and restores lexicographic order of names.
    /// Persisting the changed roster is the caller's concern.
    pub fn add_chapter(&mut self, chapter: Chapter)
        ensures
            sorted_by_name(final(self).chapters@),
            final(self).chapters@.to_multiset() == old(self).chapters@.push(
                chapter,
            ).to_multiset(),
    {
        self.chapters.push(chapter);
        self.sort();
    }

    /// Removes the chapter at the given index, shifting later ones down.
    /// Persisting the changed roster is the caller's concern.
    pub fn remove_chapter(&mut self, id: u8)
        requires
            (id as int) < old(self).chapters@.len(),
        ensures
            final(self).chapters@ == old(self).chapters@.remove(id as int),
    {
        self.chapters.remove(id as usize);
    }

    /// Orders the roster by chapter name.
    fn sort(&mut self)
        ensures
            sorted_by_name(final(self).chapters@),
            final(self).chapters@.to_multiset() == old(self).chapters@.to_multiset(),
    {
        let mut out: Vec<Chapter> = Vec::new();
        while self.chapters.len() > 0
            invariant
                out@.to_multiset().add(self.chapters@.to_multiset()) == old(
                    self,
                ).chapters@.to_multiset(),
                sorted_by_name(out@),
                forall|i: int, j: int|
                    0 <= i < out@.len() && 0 <= j < self.chapters@.len() ==> lex_leq(
                        #[trigger] out@[i].name@,
                        #[trigger] self.chapters@[j].name@,
                    ),
            decreases self.chapters@.len(),
        {
            let mut k: usize = 0;
            let mut m: usize = 1;
            proof {
                lemma_lex_leq_total(self.chapters@[0].name@, self.chapters@[0].name@);
            }
            while m < self.chapters.len()
                invariant
                    k < m <= self.chapters@.len(),
                    self.chapters@.len() > 0,
                    forall|t: int|
                        0 <= t < m ==> lex_leq(
                            self.chapters@[k as int].name@,
                            #[trigger] self.chapters@[t].name@,
                        ),
                decreases self.chapters@.len() - m,
            {
                if str_leq(self.chapters[m].name.as_str(), self.chapters[k].name.as_str()) {
                    proof {
                        lemma_lex_leq_total(
                            self.chapters@[m as int].name@,
                            self.chapters@[m as int].name@,
                        );
                        assert forall|t: int| 0 <= t < m implies lex_leq(
                            self.chapters@[m as int].name@,
                            #[trigger] self.chapters@[t].name@,
                        ) by {
                            lemma_lex_leq_trans(
                                self.chapters@[m as int].name@,
                                self.chapters@[k as int].name@,
                                self.chapters@[t].name@,
                            );
                        }
                    }
                    k = m;
                } else {
                    proof {
                        lemma_lex_leq_total(
                            self.chapters@[m as int].name@,
                            self.chapters@[k as int].name@,
                        );
                    }
                }
                m = m + 1;
            }
            let ghost rest_before = self.chapters@;
            let picked = self.chapters.remove(k);
            out.push(picked);
            proof {
                assert(out@.to_multiset().add(self.chapters@.to_multiset()) =~= old(
                    self,
                ).chapters@.to_multiset());
                assert forall|i: int, j: int|
                    0 <= i < out@.len() && 0 <= j < self.chapters@.len() implies lex_leq(
                    #[trigger] out@[i].name@,
                    #[trigger] self.chapters@[j].name@,
                ) by {
                    if i < out@.len() - 1 {
                        // carried over: the removed row was already bounded below
                    } else {
                        // the picked minimum is bounded by every remaining row
                        if j < k {
                            assert(self.chapters@[j] == rest_before[j]);
                        } else {
                            assert(self.chapters@[j] == rest_before[j + 1]);
                        }
                    }
                }
            }
        }
        self.chapters = out;
    }

    /// The chapter at the given index, when the index is in range.
    pub fn get_by_id(&self, id: usize) -> (r: Option<&Chapter>)
        ensures
            match r {
                Some(c) => id < self.chapters@.len() && *c == self.chapters@[id as int],
                None => id >= self.chapters@.len(),
            },
    {
        if id < self.chapters.len() {
            Some(&self.chapters[id])
        } else {
            None
        }
    }

    /// The first chapter with the given name, when one exists.
    pub fn get_by_name(&self, name: &str) -> (r: Option<&Chapter>)
        ensures
            match r {
                Some(c) => exists|i: int|
                    0 <= i < self.chapters@.len() && *c == self.chapters@[i] && (#[trigger] self.chapters@[i].name@)
                        == name@ && forall|j: int| 0 <= j < i ==> self.chapters@[j].name@ != name@,
                None => forall|i: int|
                    0 <= i < self.chapters@.len() ==> (#[trigger] self.chapters@[i].name@) != name@,
            },
    {
        let mut i: usize = 0;
        while i < self.chapters.len()
            invariant
                i <= self.chapters@.len(),
                forall|j: int| 0 <= j < i ==> (#[trigger] self.chapters@[j].name@) != name@,
            decreases self.chapters@.len() - i,
        {
            if str_eq(self.chapters[i].name.as_str(), name) {
                return Some(&self.chapters[i]);
            }
            i = i + 1;
        }
        None
    }

    /// The index of the first chapter with the given name, when one exists.
    pub fn get_id_by_name(&self, name: &str) -> (r: Option<u8>)
        requires
            self.chapters@.len() <= 256,
        ensures
            match r {
                Some(id) => (id as int) < self.chapters@.len() && (#[trigger] self.chapters@[id as int].name@)
                    == name@ && forall|j: int|
                    0 <= j < id as int ==> self.chapters@[j].name@ != name@,
                None => forall|i: int|
                    0 <= i < self.chapters@.len() ==> (#[trigger] self.chapters@[i].name@) != name@,
            },
    {
        let mut i: usize = 0;
        while i < self.chapters.len()
            invariant
                i <= self.chapters@.len(),
                self.chapters@.len() <= 256,
                forall|j: int| 0 <= j < i ==> (#[trigger] self.chapters@[j].name@) != name@,
            decreases self.chapters@.len() - i,
        {
            if str_eq(self.chapters[i].name.as_str(), name) {
                return Some(i as u8);
            }
            i = i + 1;
        }
        None
    }

    /// How many chapters the roster holds.
    pub fn get_count(&self) -> (r: usize)
        ensures
            r == self.chapters@.len(),
    {
        self.chapters.len()
    }

    /// All chapters, in roster order.
    pub fn all(&self) -> (r: &[Chapter])
        ensures
            r@ == self.chapters@,
    {
        self.chapters.as_slice()
    }

    /// Renders the roster as the numbered list shown to joining members.
    /// Names longer than sixteen characters do not fit the column layout.
    pub fn to_formatted_list(&self) -> (r: String)
        requires
            forall|i: int|
                0 <= i < self.chapters@.len() ==> (#[trigger] self.chapters@[i].name@).len()
                    <= 16,
        ensures
            r@ == formatted_list(self.chapters@),
    {
        let mut result = String::from_str("Available Chapters:\n\n```");
        let mut id: usize = 0;
        while id < self.chapters.len()
            invariant
                id <= self.chapters@.len(),
                forall|i: int|
                    0 <= i < self.chapters@.len() ==> (#[trigger] self.chapters@[i].name@).len()
                        <= 16,
                result@ == "Available Chapters:\n\n```"@ + list_entries(
                    self.chapters@,
                    id as int,
                ),
            decreases self.chapters@.len() - id,
        {
            let ghost before = result@;
            result.append("[");
            let index_text = encode_u64(id as u64);
            result.append(index_text.as_str());
            result.append("] ");
            result.append(self.chapters[id].name.as_str());
            let chars = self.chapters[id].name.as_str().unicode_len();
            if chars < 16 && id % 2 == 0 {
                let pad = spaces(16 - chars);
                result.append(pad.as_str());
            }
            if id < 10 {
                result.append(" ");
            }
            if id % 2 == 1 {
                result.append("\n");
            }
            proof {
                reveal_strlit("[");
                reveal_strlit("] ");
                reveal_strlit(" ");
                reveal_strlit("\n");
                assert(result@ =~= before + list_entry(id as int, self.chapters@[id as int]));
                assert(result@ =~= "Available Chapters:\n\n```"@ + list_entries(
                    self.chapters@,
                    id + 1,
                ));
            }
            id = id + 1;
        }
        result.append("\n```");
        proof {
            assert(result@ =~= formatted_list(self.chapters@));
        }
        result
    }
}

} // verus!
