//! Macros: text in, text out.

use vstd::prelude::*;
use vstd::string::*;
use super::cursor::{pos_at, Cursor};
use super::err::{ParserError, ParserErrorView};
use super::lexer::{find_space, lemma_find_space_bounds};
use super::text::{spec_substring, substring, white_space_mask, TextBuf};

verus! {

/// The keyword that opens a macro definition.
pub open spec fn def_word() -> Seq<char> {
    "macrodef "@
}

/// The keyword that closes a macro definition.
pub open spec fn end_word() -> Seq<char> {
    "macroend\n"@
}

/// The text that calls the macro defined under `name`.
pub open spec fn call_name(name: Seq<char>) -> Seq<char> {
    seq!['$'] + name + seq!['!']
}

/// A macro: the text that calls it and the text that replaces the call.
pub ghost struct MacroView {
    pub name: Seq<char>,
    pub content: Seq<char>,
}

/// The macros known before any is defined.
pub open spec fn default_macros() -> Seq<MacroView> {
    seq![MacroView { name: "$FUNNY!"@, content: "420 69"@ }]
}

/// `word`, which is not empty, stands in `src` at index `idx`.
pub open spec fn matches_at(src: Seq<char>, idx: int, word: Seq<char>) -> bool {
    &&& word.len() > 0
    &&& 0 <= idx
    &&& idx + word.len() <= src.len()
    &&& src.subrange(idx, idx + word.len()) == word
}

/// The first macro, at or after index `from` of the table, whose name stands
/// in `src` at index `idx`.
pub open spec fn find_macro(macros: Seq<MacroView>, src: Seq<char>, idx: int, from: int) -> Option<
    int,
>
    decreases macros.len() - from,
{
    if from < 0 || from >= macros.len() {
        None
    } else if matches_at(src, idx, macros[from].name) {
        Some(from)
    } else {
        find_macro(macros, src, idx, from + 1)
    }
}

/// What the preprocessor carries from one index to the next: the index, the
/// macros known so far, and the name and body start of a definition that is
/// open.
pub ghost struct PreState {
    pub idx: int,
    pub macros: Seq<MacroView>,
    pub defining: Option<(Seq<char>, int)>,
}

/// What the preprocessor does at one index.
pub ghost enum PreStep {
    Fail { error: ParserErrorView },
    /// `emit` goes to the output and the scan goes on in state `next`.
    Go { emit: Seq<char>, next: PreState },
}

/// A definition opens: its name runs up to the next character that `spaces`
/// marks, and its body starts behind that.
pub open spec fn step_def(src: Seq<char>, spaces: Seq<bool>, st: PreState) -> PreStep {
    if st.defining is Some {
        PreStep::Fail { error: ParserErrorView::NoSubMacros(pos_at(src, st.idx)) }
    } else {
        let name_start = st.idx + def_word().len();
        let name_end = find_space(spaces, name_start);
        let body_start = if name_end < src.len() {
            name_end + 1
        } else {
            src.len() as int
        };
        PreStep::Go {
            emit: Seq::empty(),
            next: PreState {
                idx: body_start,
                macros: st.macros,
                defining: Some((src.subrange(name_start, name_end), body_start)),
            },
        }
    }
}

/// A definition closes: its body runs from the recorded start up to one
/// character before the closing keyword.
pub open spec fn step_end(src: Seq<char>, st: PreState) -> PreStep {
    match st.defining {
        None => PreStep::Fail { error: ParserErrorView::NoMacroDef(pos_at(src, st.idx)) },
        Some((name, body_start)) => PreStep::Go {
            emit: Seq::empty(),
            next: PreState {
                idx: st.idx + end_word().len(),
                macros: st.macros.push(
                    MacroView {
                        name: call_name(name),
                        content: spec_substring(src, body_start, st.idx - 1),
                    },
                ),
                defining: None,
            },
        },
    }
}

/// A macro call gives way to the macro's body; any other character is copied
/// outside a definition and dropped inside one.
pub open spec fn step_call(src: Seq<char>, st: PreState) -> PreStep {
    match find_macro(st.macros, src, st.idx, 0) {
        Some(k) => PreStep::Go {
            emit: st.macros[k].content,
            next: PreState { idx: st.idx + st.macros[k].name.len(), ..st },
        },
        None => PreStep::Go {
            emit: if st.defining is None {
                seq![src[st.idx]]
            } else {
                Seq::empty()
            },
            next: PreState { idx: st.idx + 1, ..st },
        },
    }
}

/// What happens at index `st.idx`, which lies within `src`: the opening
/// keyword is tried first, then the closing keyword, then the macros in the
/// order in which they were defined.
pub open spec fn pre_step(src: Seq<char>, spaces: Seq<bool>, st: PreState) -> PreStep {
    if matches_at(src, st.idx, def_word()) {
        step_def(src, spaces, st)
    } else if matches_at(src, st.idx, end_word()) {
        step_end(src, st)
    } else {
        step_call(src, st)
    }
}

/// The macro that a search finds lies in the table, at or after the index
/// the search began at, and its name stands in the text.
pub proof fn lemma_find_macro_matches(macros: Seq<MacroView>, src: Seq<char>, idx: int, from: int)
    requires
        0 <= from,
    ensures
        match find_macro(macros, src, idx, from) {
            Some(k) => from <= k < macros.len() && matches_at(src, idx, macros[k].name),
            None => true,
        },
    decreases macros.len() - from,
{
    if from < macros.len() && !matches_at(src, idx, macros[from].name) {
        lemma_find_macro_matches(macros, src, idx, from + 1);
    }
}

/// Every step moves the index on, and not beyond the end of the text.
pub proof fn lemma_pre_step_advances(src: Seq<char>, spaces: Seq<bool>, st: PreState)
    requires
        0 <= st.idx < src.len(),
        spaces.len() == src.len(),
    ensures
        pre_step(src, spaces, st) matches PreStep::Go { next, .. } ==> st.idx < next.idx
            <= src.len(),
{
    if matches_at(src, st.idx, def_word()) {
        lemma_find_space_bounds(spaces, st.idx + def_word().len());
    } else if matches_at(src, st.idx, end_word()) {
    } else {
        lemma_find_macro_matches(st.macros, src, st.idx, 0);
    }
}

/// `text` before what the rest of a scan yields.
pub open spec fn after_output(text: Seq<char>, rest: Result<Seq<char>, ParserErrorView>) -> Result<
    Seq<char>,
    ParserErrorView,
> {
    match rest {
        Ok(tail) => Ok(text + tail),
        Err(error) => Err(error),
    }
}

/// The output of preprocessing `src` from state `st` on, or the first error.
/// `spaces` marks the characters of `src` that are white space, index by
/// index.
pub open spec fn expand_from(src: Seq<char>, spaces: Seq<bool>, st: PreState) -> Result<
    Seq<char>,
    ParserErrorView,
>
    recommends
        spaces.len() == src.len(),
    decreases src.len() - st.idx,
{
    if st.idx < 0 || st.idx >= src.len() || spaces.len() != src.len() {
        Ok(Seq::empty())
    } else {
        proof {
            lemma_pre_step_advances(src, spaces, st);
        }
        match pre_step(src, spaces, st) {
            PreStep::Fail { error } => Err(error),
            PreStep::Go { emit, next } => after_output(emit, expand_from(src, spaces, next)),
        }
    }
}

/// The state in which preprocessing starts.
pub open spec fn initial_state() -> PreState {
    PreState { idx: 0, macros: default_macros(), defining: None }
}

/// The output of preprocessing a whole text, with white space as Unicode
/// defines it.
pub open spec fn expand(src: Seq<char>) -> Result<Seq<char>, ParserErrorView> {
    expand_from(src, white_space_mask(src), initial_state())
}

/// Where a macro call stands, the output goes on with the macro's body as it
/// was recorded, and then with what the source behind the call yields: the
/// body itself is not scanned.
pub proof fn lemma_call_replaced_by_body(src: Seq<char>, spaces: Seq<bool>, st: PreState, k: int)
    requires
        0 <= st.idx < src.len(),
        spaces.len() == src.len(),
        !matches_at(src, st.idx, def_word()),
        !matches_at(src, st.idx, end_word()),
        find_macro(st.macros, src, st.idx, 0) == Some(k),
    ensures
        expand_from(src, spaces, st) == after_output(
            st.macros[k].content,
            expand_from(src, spaces, PreState { idx: st.idx + st.macros[k].name.len(), ..st }),
        ),
{
}

/// Expands the macros of `src`, with white space as Unicode defines it:
/// definitions leave the text, and each call of a macro that is known by
/// then gives way to the macro's body.
pub fn process(src: String) -> (res: Result<Box<String>, ParserError>)
    ensures
        output_view(res) == expand(src@),
{
    PreProccessor::new(src).process()
}

/// Preprocesses `src`, taking for white space the characters that `spaces`
/// marks.
pub fn process_with_spaces(src: String, spaces: Vec<bool>) -> (res: Result<
    Box<String>,
    ParserError,
>)
    requires
        spaces@.len() == src@.len(),
    ensures
        output_view(res) == expand_from(src@, spaces@, initial_state()),
{
    PreProccessor::with_spaces(src, spaces).process()
}

/// The text or the error of a result, as sequences of characters.
pub open spec fn output_view(res: Result<Box<String>, ParserError>) -> Result<
    Seq<char>,
    ParserErrorView,
> {
    match res {
        Ok(text) => Ok(text@),
        Err(error) => Err(error@),
    }
}

struct Macro {
    name: String,
    content: String,
}

impl View for Macro {
    type V = MacroView;

    closed spec fn view(&self) -> MacroView {
        MacroView { name: self.name@, content: self.content@ }
    }
}

struct PreProccessor {
    cur: Cursor,
    out: TextBuf,
    macros: Vec<Macro>,
    defining: Option<(String, usize)>,
}

impl PreProccessor {
    spec fn state(&self) -> PreState {
        PreState {
            idx: self.cur.idx as int,
            macros: self.macros@.map_values(|m: Macro| m@),
            defining: match self.defining {
                Some((name, body_start)) => Some((name@, body_start as int)),
                None => None,
            },
        }
    }

    /// What is to happen at the cursor.
    spec fn step(&self) -> PreStep {
        pre_step(self.cur.src@, self.cur.spaces@, self.state())
    }

    /// What the text from the cursor on is to yield, behind the output so
    /// far.
    spec fn yields(&self) -> Result<Seq<char>, ParserErrorView> {
        after_output(self.out@, expand_from(self.cur.src@, self.cur.spaces@, self.state()))
    }

    spec fn wf(&self) -> bool {
        &&& self.cur.wf()
        &&& self.out.wf()
        &&& self.cur.idx <= self.cur.len
        &&& self.defining is Some ==> self.cur.idx > 0
    }

    /// The state after a read that started in state `before` and was to do
    /// what `step` says.
    spec fn stepped(
        self,
        before: PreProccessor,
        res: Result<bool, ParserError>,
        step: PreStep,
    ) -> bool {
        match step {
            PreStep::Fail { error } => res matches Err(e) && e@ == error,
            PreStep::Go { emit, next } => {
                &&& res == Ok::<bool, ParserError>(true)
                &&& self.wf()
                &&& self.cur.src == before.cur.src
                &&& self.cur.spaces == before.cur.spaces
                &&& self.state() == next
                &&& self.out@ == before.out@ + emit
            },
        }
    }

    /// The state after a read that found nothing to do.
    spec fn untouched(self, before: PreProccessor, res: Result<bool, ParserError>) -> bool {
        &&& res == Ok::<bool, ParserError>(false)
        &&& self.wf()
        &&& self.cur == before.cur
        &&& self.state() == before.state()
        &&& self.out@ == before.out@
    }

    fn new(src: String) -> (pre: Self)
        ensures
            pre.wf(),
            pre.cur.src@ == src@,
            pre.cur.spaces@ == white_space_mask(src@),
            pre.state() == initial_state(),
            pre.out@ == Seq::<char>::empty(),
    {
        Self::at(Cursor::new(src))
    }

    fn with_spaces(src: String, spaces: Vec<bool>) -> (pre: Self)
        requires
            spaces@.len() == src@.len(),
        ensures
            pre.wf(),
            pre.cur.src@ == src@,
            pre.cur.spaces@ == spaces@,
            pre.state() == initial_state(),
            pre.out@ == Seq::<char>::empty(),
    {
        Self::at(Cursor::with_spaces(src, spaces))
    }

    /// A preprocessor that reads from `cur` on, with the default macros.
    fn at(cur: Cursor) -> (pre: Self)
        requires
            cur.wf(),
            cur.idx == 0,
        ensures
            pre.wf(),
            pre.cur == cur,
            pre.state() == initial_state(),
            pre.out@ == Seq::<char>::empty(),
    {
        let mut macros = Vec::new();
        Self::add_default_macros(&mut macros);
        let pre = Self { cur, out: TextBuf::new(), defining: None, macros };
        assert(pre.state().macros =~= default_macros());
        pre
    }

    fn add_default_macros(macros: &mut Vec<Macro>)
        ensures
            final(macros)@.map_values(|m: Macro| m@) == old(macros)@.map_values(|m: Macro| m@)
                + default_macros(),
    {
        macros.push(
            Macro { name: String::from_str("$FUNNY!"), content: String::from_str("420 69") },
        );
        assert(macros@.map_values(|m: Macro| m@) =~= old(macros)@.map_values(|m: Macro| m@)
            + default_macros());
    }

    fn advance(&mut self)
        requires
            old(self).wf(),
            old(self).cur.idx < old(self).cur.len,
        ensures
            final(self).wf(),
            final(self).cur.src == old(self).cur.src,
            final(self).cur.spaces == old(self).cur.spaces,
            final(self).cur.idx == old(self).cur.idx + 1,
            final(self).out == old(self).out,
            final(self).macros == old(self).macros,
            final(self).defining == old(self).defining,
    {
        self.cur.advance();
    }

    /// Consumes self
    fn process(self) -> (res: Result<Box<String>, ParserError>)
        requires
            self.wf(),
        ensures
            output_view(res) == self.yields(),
    {
        let mut pre = self;
        let ghost src = pre.cur.src@;
        let ghost spaces = pre.cur.spaces@;
        let ghost goal = self.yields();
        // Processes Keywords
        while pre.cur.next.is_some()
            invariant
                pre.wf(),
                pre.cur.src@ == src,
                pre.cur.spaces@ == spaces,
                pre.yields() == goal,
                goal == self.yields(),
            decreases src.len() - pre.cur.idx,
        {
            let curr = pre.cur.next.unwrap();
            let idx = pre.cur.idx;
            let ghost before = pre;
            proof {
                lemma_pre_step_advances(src, spaces, pre.state());
                if let PreStep::Go { emit, next } = pre_step(src, spaces, pre.state()) {
                    if let Ok(tail) = expand_from(src, spaces, next) {
                        assert((before.out@ + emit) + tail =~= before.out@ + (emit + tail));
                    }
                }
            }
            // continue if char matches first letter of macro keyword
            if pre.macro_def_read(idx)? {
                continue;
            }
            if pre.macro_end_read(idx)? {
                continue;
            }
            if pre.macro_call_read(idx)? {
                continue;
            }
            if pre.defining.is_none() {
                pre.out.push(curr);
            }
            pre.advance();
            assert(pre.out@ =~= before.out@ + if before.defining is None {
                seq![curr]
            } else {
                Seq::empty()
            });
        }
        let finished = pre.out.finish();
        proof {
            assert(finished@ + Seq::<char>::empty() =~= finished@);
        }
        Ok(Box::new(finished))
    }

    fn macro_call_read(&mut self, idx: usize) -> (res: Result<bool, ParserError>)
        requires
            old(self).wf(),
            idx == old(self).cur.idx,
            idx < old(self).cur.len,
            !matches_at(old(self).cur.src@, idx as int, def_word()),
            !matches_at(old(self).cur.src@, idx as int, end_word()),
        ensures
            match find_macro(old(self).state().macros, old(self).cur.src@, idx as int, 0) {
                Some(_) => final(self).stepped(
                    *old(self),
                    res,
                    pre_step(old(self).cur.src@, old(self).cur.spaces@, old(self).state()),
                ),
                None => final(self).untouched(*old(self), res),
            },
    {
        let ghost src = self.cur.src@;
        let ghost table = self.state().macros;
        // checks if call matches any defined macros
        let mut i: usize = 0;
        while i < self.macros.len()
            invariant
                *self == *old(self),
                self.wf(),
                src == self.cur.src@,
                table == self.state().macros,
                idx == self.cur.idx,
                idx < self.cur.len,
                !matches_at(src, idx as int, def_word()),
                !matches_at(src, idx as int, end_word()),
                i <= self.macros.len(),
                find_macro(table, src, idx as int, 0) == find_macro(
                    table,
                    src,
                    idx as int,
                    i as int,
                ),
            decreases self.macros.len() - i,
        {
            assert(table[i as int] == self.macros[i as int]@);
            if self.read_word(self.macros[i].name.as_str(), idx) {
                let name_len = self.macros[i].name.as_str().unicode_len();
                self.out.push_str(self.macros[i].content.as_str());
                self.skip(name_len);
                return Ok(true);
            }
            i += 1;
        }
        Ok(false)
    }

    fn macro_end_read(&mut self, end_idx: usize) -> (res: Result<bool, ParserError>)
        requires
            old(self).wf(),
            end_idx == old(self).cur.idx,
            end_idx < old(self).cur.len,
            !matches_at(old(self).cur.src@, end_idx as int, def_word()),
        ensures
            if matches_at(old(self).cur.src@, end_idx as int, end_word()) {
                final(self).stepped(*old(self), res, old(self).step())
            } else {
                final(self).untouched(*old(self), res)
            },
    {
        // if next characters is the mac def keyword, process
        if self.read_word("macroend\n", end_idx) {
            // if no macrodef was called then return err
            if self.defining.is_none() {
                return Err(ParserError::NoMacroDef(self.cur.file_pos));
            }
            let ghost before = self.state();
            // clean defining
            let (name, start_idx) = self.defining.take().unwrap();
            proof {
                reveal_strlit("$");
                reveal_strlit("!");
            }
            let defined = Macro {
                name: String::from_str("$").concat(name.as_str()).concat("!"),
                content: String::from_str(substring(self.cur.src.as_str(), start_idx, end_idx - 1)),
            };
            assert(defined@.name =~= call_name(name@));
            self.macros.push(defined);
            assert(self.state().macros =~= before.macros.push(defined@));
            // skips end word
            self.skip("macroend\n".unicode_len());
            return Ok(true);
        }
        Ok(false)
    }

    // returns Ok(true) if a macro was successfully read
    fn macro_def_read(&mut self, start_idx: usize) -> (res: Result<bool, ParserError>)
        requires
            old(self).wf(),
            start_idx == old(self).cur.idx,
            start_idx < old(self).cur.len,
        ensures
            if matches_at(old(self).cur.src@, start_idx as int, def_word()) {
                final(self).stepped(*old(self), res, old(self).step())
            } else {
                final(self).untouched(*old(self), res)
            },
    {
        if self.read_word("macrodef ", start_idx) {
            if self.defining.is_some() {
                return Err(ParserError::NoSubMacros(self.cur.file_pos));
            }
            let ghost src = self.cur.src@;
            let ghost spaces = self.cur.spaces@;
            // Advances to skip macro keyword
            self.skip("macrodef ".unicode_len());
            let ghost name_start = self.cur.idx as int;
            // gets name
            let mut name = TextBuf::new();
            let mut ended = false;
            while !ended && self.cur.next.is_some()
                invariant
                    self.wf(),
                    self.cur.src@ == src,
                    self.cur.spaces@ == spaces,
                    self.cur.src == old(self).cur.src,
                    self.cur.spaces == old(self).cur.spaces,
                    self.out == old(self).out,
                    self.macros == old(self).macros,
                    self.defining is None,
                    name.wf(),
                    0 <= name_start <= self.cur.idx <= src.len(),
                    !ended ==> name@ == src.subrange(name_start, self.cur.idx as int),
                    !ended ==> find_space(spaces, name_start) == find_space(
                        spaces,
                        self.cur.idx as int,
                    ),
                    ended ==> name@ == src.subrange(name_start, self.cur.idx - 1),
                    ended ==> find_space(spaces, name_start) == self.cur.idx - 1,
                decreases src.len() - self.cur.idx + if ended { 0int } else { 1int },
            {
                let curr = self.cur.next.unwrap();
                let space = self.cur.at_space();
                self.advance();
                if space {
                    ended = true;
                } else {
                    name.push(curr);
                    assert(src.subrange(name_start, self.cur.idx as int) =~= src.subrange(
                        name_start,
                        self.cur.idx - 1,
                    ).push(curr));
                }
            }
            let name = name.finish();
            self.defining = Some((name, self.cur.idx));
            return Ok(true);
        }
        Ok(false)
    }

    fn skip(&mut self, n: usize)
        requires
            old(self).wf(),
            old(self).cur.idx + n <= old(self).cur.len,
        ensures
            final(self).wf(),
            final(self).cur.src == old(self).cur.src,
            final(self).cur.spaces == old(self).cur.spaces,
            final(self).cur.idx == old(self).cur.idx + n,
            final(self).out == old(self).out,
            final(self).macros == old(self).macros,
            final(self).defining == old(self).defining,
    {
        let mut done: usize = 0;
        while done < n
            invariant
                self.wf(),
                done <= n,
                self.cur.src == old(self).cur.src,
                self.cur.spaces == old(self).cur.spaces,
                self.cur.len == old(self).cur.len,
                self.cur.idx == old(self).cur.idx + done,
                old(self).cur.idx + n <= old(self).cur.len,
                self.out == old(self).out,
                self.macros == old(self).macros,
                self.defining == old(self).defining,
            decreases n - done,
        {
            self.advance();
            done += 1;
        }
    }

    fn read_word(&self, word: &str, idx: usize) -> (found: bool)
        requires
            self.cur.wf(),
        ensures
            found == matches_at(self.cur.src@, idx as int, word@),
    {
        let word_len = word.unicode_len();
        // if length of word is greater than how much the file is left to read,
        // return false for no macro
        if word_len == 0 || idx > self.cur.len || word_len > self.cur.len - idx {
            return false;
        }
        let next_chars = substring(self.cur.src.as_str(), idx, idx + word_len);
        return String::from_str(next_chars) == String::from_str(word);
    }
}

} // verus!
