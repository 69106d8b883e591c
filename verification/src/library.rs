//! Play lists and albums as the account pages show them: the entries, the
//! split between lists of one's own and collected ones, and the lookup of
//! the "liked music" list.
use vstd::prelude::*;
use crate::text::chars_of;

verus! {

/// A play list or an album entry: its name, cover, author and id.
#[derive(Clone, Debug, PartialEq, Eq, Default)]
pub struct Track {
    pub name: String,
    pub cover_url: String,
    pub author: String,
    pub id: u64,
}

/// A row of play list or album entries.
#[derive(Clone, Debug, PartialEq, Eq, Default)]
pub struct Tracks {
    pub vec: Vec<Track>,
}

/// The logged-in account as the side bar and the account page show it.
#[derive(Clone, Debug, PartialEq, Eq, Default)]
pub struct AccountInfo {
    pub name: String,
    pub avatar_url: String,
    pub uid: u64,
}

/// The words that name the list of liked songs of an account.
pub open spec fn favorite_keyword() -> Seq<char> {
    seq!['喜', '欢', '的', '音', '乐']
}

/// `needle` occurs in `hay` as a run of consecutive characters.
pub open spec fn contains_text(hay: Seq<char>, needle: Seq<char>) -> bool {
    exists|i: int|
        0 <= i && i + needle.len() <= hay.len() && #[trigger] hay.subrange(i, i + needle.len())
            == needle
}

/// The entries by `author` (`keep`) or by anyone else (`!keep`), in order.
pub open spec fn by_author(s: Seq<Track>, author: Seq<char>, keep: bool) -> Seq<Track>
    decreases s.len(),
{
    if s.len() == 0 {
        Seq::empty()
    } else {
        let rest = by_author(s.drop_last(), author, keep);
        if (s.last().author@ == author) == keep {
            rest.push(s.last())
        } else {
            rest
        }
    }
}

/// `t` is the liked-music list of the account `nickname`.
pub open spec fn is_favorite_list(t: Track, nickname: Seq<char>) -> bool {
    contains_text(t.name@, favorite_keyword()) && t.author@ == nickname
}

/// Whether `needle` occurs in `hay`.
pub fn contains_chars(hay: &Vec<char>, needle: &Vec<char>) -> (r: bool)
    ensures
        r == contains_text(hay@, needle@),
{
    if needle.len() == 0 {
        assert(hay@.subrange(0, 0 + needle@.len() as int) =~= needle@);
        return true;
    }
    let mut i: usize = 0;
    while i < hay.len()
        invariant
            i <= hay@.len(),
            needle@.len() > 0,
            forall|j: int|
                0 <= j < i && j + needle@.len() <= hay@.len() ==> #[trigger] hay@.subrange(
                    j,
                    j + needle@.len(),
                ) != needle@,
        decreases hay@.len() - i,
    {
        if needle.len() <= hay.len() - i {
            let mut k: usize = 0;
            let mut same = true;
            while k < needle.len() && same
                invariant
                    k <= needle@.len(),
                    i < hay@.len(),
                    hay@.len() == hay.len(),
                    i + needle@.len() <= hay@.len(),
                    same ==> forall|m: int| 0 <= m < k ==> hay@[i + m] == needle@[m],
                    !same ==> k > 0 && hay@[i + k - 1] != needle@[k - 1],
                decreases needle@.len() - k + (if same {
                    1int
                } else {
                    0int
                }),
            {
                if hay[i + k] != needle[k] {
                    same = false;
                }
                k = k + 1;
            }
            if same {
                assert(hay@.subrange(i as int, i + needle@.len()) =~= needle@);
                return true;
            }
            assert(hay@.subrange(i as int, i + needle@.len())[k - 1] != needle@[k - 1]);
        }
        i = i + 1;
    }
    false
}

impl Track {
    /// A copy of the entry, field by field.
    pub fn duplicate(&self) -> (t: Track)
        ensures
            t == *self,
    {
        Track {
            name: self.name.clone(),
            cover_url: self.cover_url.clone(),
            author: self.author.clone(),
            id: self.id,
        }
    }

    /// An entry from its name, cover, author and id.
    pub fn new(name: String, cover_url: String, author: String, id: u64) -> (t: Track)
        ensures
            t.name == name,
            t.cover_url == cover_url,
            t.author == author,
            t.id == id,
    {
        Track { name, cover_url, author, id }
    }
}

impl Tracks {
    /// A row holding these entries, in this order.
    pub fn from_tracks(vec: Vec<Track>) -> (t: Tracks)
        ensures
            t.vec@ == vec@,
    {
        Tracks { vec }
    }

    /// Appends entries at the end of the row.
    pub fn extend(&mut self, items: Vec<Track>)
        ensures
            final(self).vec@ == old(self).vec@ + items@,
    {
        let mut items = items;
        let ghost added = items@;
        self.vec.append(&mut items);
        assert(self.vec@ =~= old(self).vec@ + added);
    }

    /// Splits the row into the entries whose author is `name` (the
    /// account's own lists) and the others (collected ones), keeping order.
    pub fn partition_by_author(self, name: &String) -> (r: (Tracks, Tracks))
        ensures
            r.0.vec@ == by_author(self.vec@, name@, true),
            r.1.vec@ == by_author(self.vec@, name@, false),
    {
        let mut own: Vec<Track> = Vec::new();
        let mut others: Vec<Track> = Vec::new();
        let mut i: usize = 0;
        while i < self.vec.len()
            invariant
                i <= self.vec@.len(),
                own@ == by_author(self.vec@.subrange(0, i as int), name@, true),
                others@ == by_author(self.vec@.subrange(0, i as int), name@, false),
            decreases self.vec@.len() - i,
        {
            proof {
                assert(self.vec@.subrange(0, i + 1).drop_last() =~= self.vec@.subrange(
                    0,
                    i as int,
                ));
            }
            let t = self.vec[i].duplicate();
            if t.author == *name {
                own.push(t);
            } else {
                others.push(t);
            }
            i = i + 1;
        }
        proof {
            assert(self.vec@.subrange(0, self.vec@.len() as int) =~= self.vec@);
        }
        (Tracks { vec: own }, Tracks { vec: others })
    }
}

/// The id of the first list in `lists` that is the liked-music list of the
/// account `nickname`: its name holds the liked-music words and its author
/// is the account.
pub fn favorite_list_id(lists: &Vec<Track>, nickname: &String) -> (r: Option<u64>)
    ensures
        r matches Some(id) ==> exists|i: int|
            0 <= i < lists@.len() && #[trigger] lists@[i].id == id && is_favorite_list(
                lists@[i],
                nickname@,
            ) && forall|j: int| 0 <= j < i ==> !is_favorite_list(lists@[j], nickname@),
        r is None ==> forall|i: int|
            0 <= i < lists@.len() ==> !is_favorite_list(#[trigger] lists@[i], nickname@),
{
    let keyword: Vec<char> = vec!['喜', '欢', '的', '音', '乐'];
    assert(keyword@ =~= favorite_keyword());
    let mut i: usize = 0;
    while i < lists.len()
        invariant
            i <= lists@.len(),
            keyword@ == favorite_keyword(),
            forall|j: int| 0 <= j < i ==> !is_favorite_list(#[trigger] lists@[j], nickname@),
        decreases lists@.len() - i,
    {
        let name = chars_of(lists[i].name.as_str());
        if contains_chars(&name, &keyword) && lists[i].author == *nickname {
            assert(is_favorite_list(lists@[i as int], nickname@));
            return Some(lists[i].id);
        }
        i = i + 1;
    }
    None
}

/// Splitting by author loses and invents nothing: every entry lands in
/// exactly one of the two parts, and their sizes add up to the row's.
pub proof fn law_partition_complete(s: Seq<Track>, author: Seq<char>)
    ensures
        by_author(s, author, true).len() + by_author(s, author, false).len() == s.len(),
        forall|t: Track|
            #[trigger] by_author(s, author, true).contains(t) ==> s.contains(t) && t.author@
                == author,
        forall|t: Track|
            #[trigger] by_author(s, author, false).contains(t) ==> s.contains(t) && t.author@
                != author,
        forall|t: Track|
            #[trigger] s.contains(t) ==> (by_author(s, author, true).contains(t) || by_author(
                s,
                author,
                false,
            ).contains(t)),
    decreases s.len(),
{
    if s.len() > 0 {
        let p = s.drop_last();
        law_partition_complete(p, author);
        let own = by_author(s, author, true);
        let others = by_author(s, author, false);
        assert forall|t: Track| #[trigger] own.contains(t) implies s.contains(t) && t.author@
            == author by {
            if t != s.last() || s.last().author@ != author {
                assert(by_author(p, author, true).contains(t));
                assert(p.contains(t));
                let k = choose|k: int| 0 <= k < p.len() && p[k] == t;
                assert(s[k] == t);
            } else {
                assert(s[s.len() - 1] == t);
            }
        }
        assert forall|t: Track| #[trigger] others.contains(t) implies s.contains(t) && t.author@
            != author by {
            if t != s.last() || s.last().author@ == author {
                assert(by_author(p, author, false).contains(t));
                let k = choose|k: int| 0 <= k < p.len() && p[k] == t;
                assert(s[k] == t);
            } else {
                assert(s[s.len() - 1] == t);
            }
        }
        assert forall|t: Track| #[trigger] s.contains(t) implies (own.contains(t)
            || others.contains(t)) by {
            let k = choose|k: int| 0 <= k < s.len() && s[k] == t;
            if k < s.len() - 1 {
                assert(p[k] == t);
                assert(p.contains(t));
                if by_author(p, author, true).contains(t) {
                    let m = choose|m: int|
                        0 <= m < by_author(p, author, true).len() && by_author(p, author, true)[m]
                            == t;
                    if s.last().author@ == author {
                        assert(own[m] == t);
                    } else {
                        assert(own[m] == t);
                    }
                } else {
                    let m = choose|m: int|
                        0 <= m < by_author(p, author, false).len() && by_author(
                            p,
                            author,
                            false,
                        )[m] == t;
                    assert(others[m] == t);
                }
            } else {
                if s.last().author@ == author {
                    assert(own[own.len() - 1] == t);
                } else {
                    assert(others[others.len() - 1] == t);
                }
            }
        }
    }
}

} // verus!
