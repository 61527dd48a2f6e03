//! From tokens to functions, each with its tree of nodes.

use vstd::prelude::*;
use super::err::{FilePos, ParserError, ParserErrorView};
use super::lexer::{tokens_view, Op, OpView, Token, TokenView};

verus! {

/// A function: its name and the root of its tree.
#[derive(Debug, PartialEq, Eq)]
pub struct Func {
    pub name: String,
    pub node: OpNode,
}

/// A node of a function's tree.
#[derive(Debug, PartialEq, Eq)]
pub enum OpNode {
    Loop(Vec<OpNode>),
    Root(Vec<OpNode>),
    Operation(Op),
    FuncCall(String),
}

/// An [`OpNode`] with its children as a sequence and its text as sequences
/// of characters.
pub ghost enum NodeView {
    Loop(Seq<NodeView>),
    Root(Seq<NodeView>),
    Operation(OpView),
    FuncCall(Seq<char>),
}

/// A [`Func`] as a name and a tree.
pub ghost struct FuncView {
    pub name: Seq<char>,
    pub node: NodeView,
}

/// The views of a list of nodes, in order.
pub open spec fn nodes_view(nodes: Seq<OpNode>) -> Seq<NodeView>
    decreases nodes,
{
    Seq::new(
        nodes.len(),
        |i: int|
            if 0 <= i < nodes.len() {
                nodes[i]@
            } else {
                NodeView::Root(Seq::empty())
            },
    )
}

impl View for OpNode {
    type V = NodeView;

    open spec fn view(&self) -> NodeView
        decreases self,
    {
        match self {
            OpNode::Loop(children) => NodeView::Loop(nodes_view(children@)),
            OpNode::Root(children) => NodeView::Root(nodes_view(children@)),
            OpNode::Operation(op) => NodeView::Operation(op@),
            OpNode::FuncCall(name) => NodeView::FuncCall(name@),
        }
    }
}

/// A copy of each node of `nodes`, in order.
fn clone_nodes(nodes: &Vec<OpNode>) -> (res: Vec<OpNode>)
    ensures
        nodes_view(res@) == nodes_view(nodes@),
    decreases nodes,
{
    let mut res: Vec<OpNode> = Vec::new();
    let mut i: usize = 0;
    while i < nodes.len()
        invariant
            i <= nodes.len(),
            res.len() == i,
            forall|j: int| 0 <= j < i ==> res[j]@ == nodes[j]@,
        decreases nodes.len() - i,
    {
        res.push(nodes[i].clone());
        i += 1;
    }
    assert(nodes_view(res@) =~= nodes_view(nodes@));
    res
}

impl Clone for OpNode {
    fn clone(&self) -> (res: Self)
        ensures
            res@ == self@,
        decreases self,
    {
        match self {
            OpNode::Loop(children) => OpNode::Loop(clone_nodes(children)),
            OpNode::Root(children) => OpNode::Root(clone_nodes(children)),
            OpNode::Operation(op) => OpNode::Operation(op.clone()),
            OpNode::FuncCall(name) => OpNode::FuncCall(name.clone()),
        }
    }
}

impl Clone for Func {
    fn clone(&self) -> (res: Self)
        ensures
            res@ == self@,
    {
        Func { name: self.name.clone(), node: self.node.clone() }
    }
}

impl View for Func {
    type V = FuncView;

    open spec fn view(&self) -> FuncView {
        FuncView { name: self.name@, node: self.node@ }
    }
}

/// A function as the first phase leaves it: its name and the tokens of its
/// body.
pub ghost struct RawFunc {
    pub name: Seq<char>,
    pub content: Seq<(TokenView, FilePos)>,
}

/// The first index at or after `from` that holds the opening or the closing
/// of a function body; the number of tokens where there is none.
pub open spec fn body_end(toks: Seq<(TokenView, FilePos)>, from: int) -> int
    decreases toks.len() - from,
{
    if from < 0 || from >= toks.len() {
        toks.len() as int
    } else if toks[from].0 is FunctionDefine || toks[from].0 is FunctionEnd {
        from
    } else {
        body_end(toks, from + 1)
    }
}

/// A body ends at or after the index it began at, and within the tokens.
pub proof fn lemma_body_end_bounds(toks: Seq<(TokenView, FilePos)>, from: int)
    requires
        0 <= from <= toks.len(),
    ensures
        from <= body_end(toks, from) <= toks.len(),
    decreases toks.len() - from,
{
    if from < toks.len() && !(toks[from].0 is FunctionDefine || toks[from].0 is FunctionEnd) {
        lemma_body_end_bounds(toks, from + 1);
    }
}

/// `first` before what the rest of the first phase yields.
pub open spec fn after_raw(first: RawFunc, rest: Result<Seq<RawFunc>, ParserErrorView>) -> Result<
    Seq<RawFunc>,
    ParserErrorView,
> {
    match rest {
        Ok(tail) => Ok(seq![first] + tail),
        Err(error) => Err(error),
    }
}

/// The first phase from token `i` on: a name, the opening of a body, and the
/// tokens up to the closing of that body or the end of the input, time after
/// time.
pub open spec fn split_from(toks: Seq<(TokenView, FilePos)>, i: int) -> Result<
    Seq<RawFunc>,
    ParserErrorView,
>
    decreases toks.len() - i,
{
    if i < 0 || i >= toks.len() {
        Ok(Seq::empty())
    } else {
        match toks[i].0 {
            TokenView::FunctionCall(name) => {
                if i + 1 < toks.len() && toks[i + 1].0 is FunctionDefine {
                    let end = body_end(toks, i + 2);
                    proof {
                        lemma_body_end_bounds(toks, i + 2);
                    }
                    if end < toks.len() && toks[end].0 is FunctionDefine {
                        Err(ParserErrorView::NoNestedFunctionDefines(toks[end].1))
                    } else {
                        after_raw(
                            RawFunc { name, content: toks.subrange(i + 2, end) },
                            if end < toks.len() {
                                split_from(toks, end + 1)
                            } else {
                                Ok(Seq::empty())
                            },
                        )
                    }
                } else {
                    Err(ParserErrorView::FunctionCallMustBeInFunction(name, toks[i].1))
                }
            },
            other => Err(ParserErrorView::UnexpectedToken(other, toks[i].1)),
        }
    }
}

/// `node` before what the rest of a list of nodes yields.
pub open spec fn after_node(
    node: NodeView,
    rest: Result<(Seq<NodeView>, int), ParserErrorView>,
) -> Result<(Seq<NodeView>, int), ParserErrorView> {
    match rest {
        Ok((tail, next)) => Ok((seq![node] + tail, next)),
        Err(error) => Err(error),
    }
}

/// The nodes that the tokens from index `i` on write, and the index at which
/// the list ends. A list inside a loop (`allow_loop_end`) ends behind the
/// closing of the loop, and must reach one; a function's own list ends with
/// the tokens.
pub open spec fn parse_nodes(
    toks: Seq<(TokenView, FilePos)>,
    i: int,
    allow_loop_end: bool,
    start_pos: FilePos,
) -> Result<(Seq<NodeView>, int), ParserErrorView>
    decreases toks.len() - i,
{
    if i < 0 || i >= toks.len() {
        if allow_loop_end {
            Err(ParserErrorView::LoopNotEnded(start_pos))
        } else {
            Ok((Seq::empty(), toks.len() as int))
        }
    } else if allow_loop_end && toks[i].0 is LoopEnd {
        Ok((Seq::empty(), i + 1))
    } else {
        match toks[i].0 {
            TokenView::LoopStart => match parse_nodes(toks, i + 1, true, toks[i].1) {
                Ok((body, next)) => if i < next <= toks.len() {
                    after_node(
                        NodeView::Loop(body),
                        parse_nodes(toks, next, allow_loop_end, start_pos),
                    )
                } else {
                    // a loop's body ends behind its opening: see
                    // `lemma_parse_nodes_bounds`
                    Err(ParserErrorView::Generic)
                },
                Err(error) => Err(error),
            },
            TokenView::Op(op) => after_node(
                NodeView::Operation(op),
                parse_nodes(toks, i + 1, allow_loop_end, start_pos),
            ),
            TokenView::FunctionCall(name) => after_node(
                NodeView::FuncCall(name),
                parse_nodes(toks, i + 1, allow_loop_end, start_pos),
            ),
            other => Err(ParserErrorView::UnexpectedToken(other, FilePos::start())),
        }
    }
}

/// A list of nodes ends at or behind the index it began at, and within the
/// tokens; a list inside a loop ends behind it.
pub proof fn lemma_parse_nodes_bounds(
    toks: Seq<(TokenView, FilePos)>,
    i: int,
    allow_loop_end: bool,
    start_pos: FilePos,
)
    requires
        0 <= i <= toks.len(),
    ensures
        parse_nodes(toks, i, allow_loop_end, start_pos) matches Ok((_, next)) ==> i <= next
            <= toks.len() && (allow_loop_end ==> i < next),
    decreases toks.len() - i,
{
    if i < toks.len() && !(allow_loop_end && toks[i].0 is LoopEnd) {
        match toks[i].0 {
            TokenView::LoopStart => {
                lemma_parse_nodes_bounds(toks, i + 1, true, toks[i].1);
                if let Ok((body, next)) = parse_nodes(toks, i + 1, true, toks[i].1) {
                    lemma_parse_nodes_bounds(toks, next, allow_loop_end, start_pos);
                }
            },
            TokenView::Op(op) => {
                lemma_parse_nodes_bounds(toks, i + 1, allow_loop_end, start_pos);
            },
            TokenView::FunctionCall(name) => {
                lemma_parse_nodes_bounds(toks, i + 1, allow_loop_end, start_pos);
            },
            _ => {},
        }
    }
}

/// The tree of one function: the nodes that its whole body writes.
pub open spec fn parse_body(content: Seq<(TokenView, FilePos)>) -> Result<
    NodeView,
    ParserErrorView,
> {
    match parse_nodes(content, 0, false, FilePos::start()) {
        Ok((nodes, _)) => Ok(NodeView::Root(nodes)),
        Err(error) => Err(error),
    }
}

/// The second phase from function `k` on: each body becomes a tree, and the
/// first body that does not parse gives the error.
pub open spec fn build_from(raws: Seq<RawFunc>, k: int) -> Result<Seq<FuncView>, ParserErrorView>
    decreases raws.len() - k,
{
    if k < 0 || k >= raws.len() {
        Ok(Seq::empty())
    } else {
        match parse_body(raws[k].content) {
            Ok(node) => match build_from(raws, k + 1) {
                Ok(tail) => Ok(seq![FuncView { name: raws[k].name, node }] + tail),
                Err(error) => Err(error),
            },
            Err(error) => Err(error),
        }
    }
}

/// The functions that a token sequence defines, in order, or the first
/// error: those of the first phase come before those of the second.
pub open spec fn parse_tokens(toks: Seq<(TokenView, FilePos)>) -> Result<
    Seq<FuncView>,
    ParserErrorView,
> {
    match split_from(toks, 0) {
        Ok(raws) => build_from(raws, 0),
        Err(error) => Err(error),
    }
}

/// The views of functions, in order.
pub open spec fn funcs_view(funcs: Seq<Func>) -> Seq<FuncView> {
    funcs.map_values(|f: Func| f@)
}

/// The functions or the error of a result, as views.
pub open spec fn funcs_result_view(res: Result<Vec<Func>, ParserError>) -> Result<
    Seq<FuncView>,
    ParserErrorView,
> {
    match res {
        Ok(funcs) => Ok(funcs_view(funcs@)),
        Err(error) => Err(error@),
    }
}

struct UnparsedFunc {
    name: String,
    content: Vec<(Token, FilePos)>,
}

impl View for UnparsedFunc {
    type V = RawFunc;

    closed spec fn view(&self) -> RawFunc {
        RawFunc { name: self.name@, content: tokens_view(self.content@) }
    }
}

/// Pushing a node onto a list pushes its view onto the list's view.
proof fn lemma_nodes_view_push(nodes: Seq<OpNode>, node: OpNode)
    ensures
        nodes_view(nodes.push(node)) == nodes_view(nodes).push(node@),
{
    assert(nodes_view(nodes.push(node)) =~= nodes_view(nodes).push(node@));
}

/// The tokens of a program, to be grouped into functions.
pub struct Parser {
    src_toks: Vec<(Token, FilePos)>,
}

impl Parser {
    /// The tokens that the parser was made with.
    pub closed spec fn tokens(&self) -> Seq<(TokenView, FilePos)> {
        tokens_view(self.src_toks@)
    }

    /// A parser of `src_toks`.
    pub fn new(src_toks: Vec<(Token, FilePos)>) -> (parser: Self)
        ensures
            parser.tokens() == tokens_view(src_toks@),
    {
        Self { src_toks }
    }

    /// The functions that the tokens define, in order, each with its tree.
    pub fn create_functions(&mut self) -> (res: Result<Vec<Func>, ParserError>)
        ensures
            final(self).tokens() == old(self).tokens(),
            funcs_result_view(res) == parse_tokens(old(self).tokens()),
    {
        let mut funcs = Vec::<Func>::new();
        let unparsed = self.get_unparsed_functions()?;
        let ghost raws = unparsed@.map_values(|u: UnparsedFunc| u@);
        let mut k: usize = 0;
        while k < unparsed.len()
            invariant
                k <= unparsed.len(),
                raws == unparsed@.map_values(|u: UnparsedFunc| u@),
                self.tokens() == old(self).tokens(),
                split_from(old(self).tokens(), 0) == Ok::<Seq<RawFunc>, ParserErrorView>(raws),
                build_from(raws, 0) == match build_from(raws, k as int) {
                    Ok(tail) => Ok(funcs_view(funcs@) + tail),
                    Err(error) => Err(error),
                },
            decreases unparsed.len() - k,
        {
            let ghost before = funcs_view(funcs@);
            assert(raws[k as int] == unparsed[k as int]@);
            let mut at: usize = 0;
            let content = &unparsed[k].content;
            let nodes = Self::create_parse_tree(content, &mut at, false, FilePos::new())?;
            let func = Func { name: unparsed[k].name.clone(), node: OpNode::Root(nodes) };
            funcs.push(func);
            proof {
                assert(funcs_view(funcs@) =~= before.push(func@));
                if let Ok(tail) = build_from(raws, k + 1) {
                    assert(before.push(func@) + tail =~= before + (seq![func@] + tail));
                }
            }
            k += 1;
        }
        assert(funcs_view(funcs@) + Seq::<FuncView>::empty() =~= funcs_view(funcs@));
        Ok(funcs)
    }

    fn create_parse_tree(
        toks: &Vec<(Token, FilePos)>,
        idx: &mut usize,
        allow_loop_end: bool,
        start_pos: FilePos,
    ) -> (res: Result<Vec<OpNode>, ParserError>)
        requires
            *old(idx) <= toks.len(),
        ensures
            match parse_nodes(tokens_view(toks@), *old(idx) as int, allow_loop_end, start_pos) {
                Ok((nodes, next)) => res matches Ok(list) && nodes_view(list@) == nodes
                    && *final(idx) == next,
                Err(error) => res matches Err(e) && e@ == error,
            },
            res is Ok ==> *old(idx) <= *final(idx) <= toks.len(),
        decreases toks.len() - *old(idx),
    {
        let ghost view = tokens_view(toks@);
        let ghost goal = parse_nodes(view, *idx as int, allow_loop_end, start_pos);
        let mut nodes = Vec::<OpNode>::new();
        proof {
            if let Ok((tail, next)) = goal {
                assert(nodes_view(nodes@) + tail =~= tail);
            }
        }
        while *idx < toks.len()
            invariant
                *old(idx) <= *idx <= toks.len(),
                view == tokens_view(toks@),
                goal == parse_nodes(view, *old(idx) as int, allow_loop_end, start_pos),
                goal == match parse_nodes(view, *idx as int, allow_loop_end, start_pos) {
                    Ok((tail, next)) => Ok((nodes_view(nodes@) + tail, next)),
                    Err(error) => Err(error),
                },
            decreases toks.len() - *idx,
        {
            let ghost at = *idx as int;
            let ghost before = nodes_view(nodes@);
            let tok = &toks[*idx].0;
            let pos = toks[*idx].1;
            assert(view[at] == (tok@, pos));
            *idx += 1;
            // break if at end of loop
            if allow_loop_end && matches!(tok, Token::LoopEnd) {
                assert(before + Seq::<NodeView>::empty() =~= before);
                return Ok(nodes);
            }
            let node = match tok {
                Token::LoopStart => {
                    proof {
                        lemma_parse_nodes_bounds(view, at + 1, true, pos);
                    }
                    OpNode::Loop(Self::create_parse_tree(toks, idx, true, pos)?)
                },
                Token::Op(op) => OpNode::Operation(op.clone()),
                Token::FunctionCall(name) => OpNode::FuncCall(name.clone()),
                _ => {
                    return Err(ParserError::UnexpectedToken(tok.clone(), FilePos::new()));
                },
            };
            proof {
                lemma_nodes_view_push(nodes@, node);
                if let Ok((tail, next)) = parse_nodes(
                    view,
                    *idx as int,
                    allow_loop_end,
                    start_pos,
                ) {
                    assert(before.push(node@) + tail =~= before + (seq![node@] + tail));
                }
            }
            nodes.push(node);
        }
        if allow_loop_end {
            return Err(ParserError::LoopNotEnded(start_pos));
        }
        assert(nodes_view(nodes@) + Seq::<NodeView>::empty() =~= nodes_view(nodes@));
        Ok(nodes)
    }

    fn get_unparsed_functions(&self) -> (res: Result<Vec<UnparsedFunc>, ParserError>)
        ensures
            match split_from(self.tokens(), 0) {
                Ok(raws) => res matches Ok(funcs) && funcs@.map_values(|u: UnparsedFunc| u@)
                    == raws,
                Err(error) => res matches Err(e) && e@ == error,
            },
    {
        let ghost view = self.tokens();
        let mut funcs = Vec::<UnparsedFunc>::new();
        let mut i: usize = 0;
        proof {
            if let Ok(tail) = split_from(view, 0) {
                assert(funcs@.map_values(|u: UnparsedFunc| u@) + tail =~= tail);
            }
        }
        // loops through all tokens
        while i < self.src_toks.len()
            invariant
                i <= self.src_toks.len(),
                view == tokens_view(self.src_toks@),
                split_from(view, 0) == match split_from(view, i as int) {
                    Ok(tail) => Ok(funcs@.map_values(|u: UnparsedFunc| u@) + tail),
                    Err(error) => Err(error),
                },
            decreases self.src_toks.len() - i,
        {
            let ghost before = funcs@.map_values(|u: UnparsedFunc| u@);
            let tok = &self.src_toks[i].0;
            let file_pos = self.src_toks[i].1;
            assert(view[i as int] == (tok@, file_pos));
            match tok {
                Token::FunctionCall(name) => {
                    // checks next token if it is a func define
                    if i + 1 < self.src_toks.len() && matches!(
                        self.src_toks[i + 1].0,
                        Token::FunctionDefine
                    ) {
                        assert(view[i + 1] == (self.src_toks[i + 1].0@, self.src_toks[i + 1].1));
                        let mut toks = Vec::new();
                        let mut j: usize = i + 2;
                        let mut closed = false;
                        // reads everything until function end token
                        while !closed && j < self.src_toks.len()
                            invariant
                                i + 2 <= j <= self.src_toks.len(),
                                view == tokens_view(self.src_toks@),
                                view[i as int].0 == TokenView::FunctionCall(name@),
                                view[i + 1].0 is FunctionDefine,
                                split_from(view, 0) == match split_from(view, i as int) {
                                    Ok(tail) => Ok(before + tail),
                                    Err(error) => Err(error),
                                },
                                !closed ==> body_end(view, i + 2) == body_end(view, j as int),
                                !closed ==> tokens_view(toks@) == view.subrange(i + 2, j as int),
                                closed ==> body_end(view, i + 2) == j - 1,
                                closed ==> view[j - 1].0 is FunctionEnd,
                                closed ==> tokens_view(toks@) == view.subrange(i + 2, j - 1),
                            decreases self.src_toks.len() - j + if closed { 0int } else { 1int },
                        {
                            let tok = &self.src_toks[j].0;
                            let pos = self.src_toks[j].1;
                            assert(view[j as int] == (tok@, pos));
                            match tok {
                                // Nested function definition error
                                Token::FunctionDefine => {
                                    return Err(ParserError::NoNestedFunctionDefines(pos));
                                },
                                Token::FunctionEnd => {
                                    closed = true;
                                },
                                _ => {
                                    let ghost content = tokens_view(toks@);
                                    toks.push((tok.clone(), pos));
                                    assert(tokens_view(toks@) =~= content.push((tok@, pos)));
                                    assert(view.subrange(i + 2, j + 1) =~= view.subrange(
                                        i + 2,
                                        j as int,
                                    ).push(view[j as int]));
                                },
                            }
                            j += 1;
                        }
                        let func = UnparsedFunc { name: name.clone(), content: toks };
                        funcs.push(func);
                        proof {
                            assert(funcs@.map_values(|u: UnparsedFunc| u@) =~= before.push(func@));
                            let end = body_end(view, i + 2);
                            let rest = if end < view.len() {
                                split_from(view, end + 1)
                            } else {
                                Ok(Seq::empty())
                            };
                            if let Ok(tail) = rest {
                                assert(before.push(func@) + tail =~= before + (seq![func@] + tail));
                            }
                            if !closed {
                                assert(split_from(view, j as int) == Ok::<
                                    Seq<RawFunc>,
                                    ParserErrorView,
                                >(Seq::empty()));
                            }
                        }
                        i = j;
                        continue;
                    }
                    return Err(ParserError::FunctionCallMustBeInFunction(name.clone(), file_pos));
                },
                _ => {
                    return Err(ParserError::UnexpectedToken(tok.clone(), file_pos));
                },
            }
        }
        assert(funcs@.map_values(|u: UnparsedFunc| u@) + Seq::<RawFunc>::empty()
            =~= funcs@.map_values(|u: UnparsedFunc| u@));
        Ok(funcs)
    }
}

} // verus!
