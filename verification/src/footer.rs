//! A file's footer: texts by key.
use crate::text::same_text;
use vstd::prelude::*;

verus! {

/// One entry of a footer.
#[derive(Debug)]
pub struct FooterEntry {
    pub key: String,
    pub value: String,
}

/// A file's footer: texts by key, where the last entry of a key counts.
#[derive(Debug)]
pub struct Footer {
    pub entries: Vec<FooterEntry>,
}

/// The texts of a list of entries, by key.
pub open spec fn entries_map(entries: Seq<FooterEntry>) -> Map<Seq<char>, Seq<char>>
    decreases entries.len(),
{
    if entries.len() == 0 {
        Map::empty()
    } else {
        entries_map(entries.drop_last()).insert(entries.last().key@, entries.last().value@)
    }
}

impl View for Footer {
    type V = Map<Seq<char>, Seq<char>>;

    open spec fn view(&self) -> Map<Seq<char>, Seq<char>> {
        entries_map(self.entries@)
    }
}

/// The text under a key, if there is one.
pub open spec fn entry(footer: Map<Seq<char>, Seq<char>>, key: Seq<char>) -> Option<Seq<char>> {
    if footer.contains_key(key) {
        Some(footer[key])
    } else {
        None
    }
}

/// The text under a key, if there is one and it is not empty.
pub open spec fn filled_entry(footer: Map<Seq<char>, Seq<char>>, key: Seq<char>) -> Option<
    Seq<char>,
> {
    match entry(footer, key) {
        Some(text) => if text.len() == 0 {
            None
        } else {
            Some(text)
        },
        None => None,
    }
}

impl Footer {
    /// A footer without entries.
    pub fn new() -> (r: Footer)
        ensures
            r@ == Map::<Seq<char>, Seq<char>>::empty(),
    {
        Footer { entries: Vec::new() }
    }

    /// Sets the text under a key.
    pub fn set(&mut self, key: &str, value: String)
        ensures
            final(self)@ == old(self)@.insert(key@, value@),
    {
        let ghost was = self.entries@;
        let ghost text = value@;
        self.entries.push(FooterEntry { key: key.to_string(), value });
        proof {
            assert(self.entries@.drop_last() =~= was);
        }
    }

    /// The text under a key, if there is one.
    pub fn get(&self, key: &str) -> (r: Option<String>)
        ensures
            crate::series::opt_text(r) == entry(self@, key@),
    {
        let mut i: usize = self.entries.len();
        proof {
            assert(self.entries@.take(i as int) =~= self.entries@);
        }
        while i > 0
            invariant
                i <= self.entries.len(),
                entry(self@, key@) == entry(entries_map(self.entries@.take(i as int)), key@),
            decreases i,
        {
            proof {
                let shorter = self.entries@.take(i as int);
                assert(shorter.drop_last() =~= self.entries@.take(i - 1));
                assert(shorter.last() == self.entries@[i - 1]);
            }
            if same_text(self.entries[i - 1].key.as_str(), key) {
                return Some(self.entries[i - 1].value.clone());
            }
            i -= 1;
        }
        None
    }

    /// The text under a key, if there is one and it is not empty.
    pub fn get_filled(&self, key: &str) -> (r: Option<String>)
        ensures
            crate::series::opt_text(r) == filled_entry(self@, key@),
    {
        match self.get(key) {
            Some(text) => {
                if text.as_str().is_empty() {
                    None
                } else {
                    Some(text)
                }
            },
            None => None,
        }
    }
}

/// A footer gives back what stands under a key, and nothing where nothing does; asked for what is
/// filled, it leaves out the empty text alone.
pub proof fn entries_are_given_back(
    footer: Footer,
    key: &str,
    r: Option<String>,
    filled: Option<String>,
)
    requires
        call_ensures(Footer::get, (&footer, key), r),
        call_ensures(Footer::get_filled, (&footer, key), filled),
    ensures
        r is Some <==> footer@.contains_key(key@),
        r matches Some(text) ==> text@ == footer@[key@],
        filled is Some <==> r is Some && r->0@.len() > 0,
        filled matches Some(text) ==> text@ == r->0@,
{
}

/// The last entry under a key is the one that counts, and an entry under another key changes
/// nothing.
pub proof fn the_last_entry_counts(entries: Seq<FooterEntry>, more: FooterEntry, key: Seq<char>)
    ensures
        entry(entries_map(entries.push(more)), more.key@) == Some(more.value@),
        key != more.key@ ==> entry(entries_map(entries.push(more)), key) == entry(
            entries_map(entries),
            key,
        ),
        entry(entries_map(seq![]), key) is None,
{
    assert(entries.push(more).drop_last() =~= entries);
}

} // verus!
