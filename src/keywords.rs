//! The table of reserved words.
use vstd::prelude::*;
use internment::Intern;
use crate::grammar::{is_keyword, keyword_list};
use crate::symbol::{intern, interned_text, same_symbol};
use crate::token::{KindView, TokenKind};

verus! {

/// The reserved words, interned once and then only read.
pub struct KeywordTable {
    words: Vec<Intern<String>>,
}

impl KeywordTable {
    /// The words of the table, as text.
    pub closed spec fn texts(&self) -> Seq<Seq<char>> {
        self.words@.map_values(|h: Intern<String>| interned_text(h))
    }

    /// The table holds exactly the reserved words.
    pub closed spec fn wf(&self) -> bool {
        self.texts() == keyword_list()
    }

    /// Interns each reserved word.
    pub fn build() -> (r: KeywordTable)
        ensures
            r.wf(),
    {
        let mut words: Vec<Intern<String>> = Vec::new();
        words.push(intern("match".to_owned()));
        words.push(intern("as".to_owned()));
        words.push(intern("enum".to_owned()));
        words.push(intern("do".to_owned()));
        words.push(intern("with".to_owned()));
        words.push(intern("or".to_owned()));
        words.push(intern("and".to_owned()));
        words.push(intern("struct".to_owned()));
        words.push(intern("let".to_owned()));
        words.push(intern("fn".to_owned()));
        words.push(intern("in".to_owned()));
        let r = KeywordTable { words };
        assert(r.texts() =~= keyword_list());
        r
    }

    /// The keyword token for `word`, if it is a reserved word.
    pub fn lookup(&self, word: Intern<String>) -> (r: Option<TokenKind>)
        requires
            self.wf(),
        ensures
            r is Some <==> is_keyword(interned_text(word)),
            r matches Some(k) ==> k@ == KindView::Keyword(interned_text(word)),
    {
        let mut i: usize = 0;
        while i < self.words.len()
            invariant
                self.wf(),
                0 <= i <= self.words@.len(),
                forall|j: int| 0 <= j < i ==> keyword_list()[j] != interned_text(word),
            decreases self.words@.len() - i,
        {
            assert(self.texts()[i as int] == interned_text(self.words@[i as int]));
            if same_symbol(self.words[i], word) {
                assert(keyword_list()[i as int] == interned_text(word));
                return Some(TokenKind::Keyword(self.words[i]));
            }
            i = i + 1;
        }
        assert(!keyword_list().contains(interned_text(word)));
        None
    }
}

} // verus!
