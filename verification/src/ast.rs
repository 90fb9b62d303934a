use crate::tag::Span;
use vstd::prelude::*;

verus! {

/// A literal constant in an expression.
#[derive(Debug)]
pub enum Literal {
    Nothing,
    Int(i64),
    Bool(bool),
    Text(String),
}

/// A binary operator supported by the expression evaluator.
#[derive(Clone, Copy, PartialEq, Eq, Structural, Debug)]
pub enum Operator {
    Plus,
    Multiply,
    GreaterThan,
    LessThan,
    Equal,
    NotEqual,
}

/// An expression node, as handed over by the parser.
#[derive(Debug)]
pub enum Expression {
    Literal(Literal),
    Variable(String),
    Binary(Box<SpannedExpression>, Operator, Box<SpannedExpression>),
    Block(Box<BlockDef>),
}

/// An expression together with its source span.
#[derive(Debug)]
pub struct SpannedExpression {
    pub expr: Expression,
    pub span: Span,
}

/// An unevaluated block body: its declared parameter names and its
/// pipelines. A block literal captures the defining scope only when it is
/// evaluated into a value.
#[derive(Debug)]
pub struct BlockDef {
    pub params: Vec<String>,
    pub body: Vec<Pipeline>,
}

/// One pipeline of a block body: a list of expression stages.
#[derive(Debug)]
pub struct Pipeline {
    pub list: Vec<SpannedExpression>,
}

/// Mathematical content of a `Literal`.
pub enum LitV {
    Nothing,
    Int(int),
    Bool(bool),
    Text(Seq<char>),
}

/// Mathematical content of an `Expression`.
pub enum ExprV {
    Literal(LitV),
    Variable(Seq<char>),
    Binary(Box<SpannedExprV>, Operator, Box<SpannedExprV>),
    Block(BlockV),
}

/// Mathematical content of a `SpannedExpression`.
pub struct SpannedExprV {
    pub expr: ExprV,
    pub span: Span,
}

/// Mathematical content of a `BlockDef`.
pub struct BlockV {
    pub params: Seq<Seq<char>>,
    pub body: Seq<PipelineV>,
}

/// Mathematical content of a `Pipeline`.
pub struct PipelineV {
    pub list: Seq<SpannedExprV>,
}

pub open spec fn lit_view(l: Literal) -> LitV {
    match l {
        Literal::Nothing => LitV::Nothing,
        Literal::Int(i) => LitV::Int(i as int),
        Literal::Bool(b) => LitV::Bool(b),
        Literal::Text(s) => LitV::Text(s@),
    }
}

pub open spec fn expr_view(e: Expression) -> ExprV
    decreases e,
{
    match e {
        Expression::Literal(l) => ExprV::Literal(lit_view(l)),
        Expression::Variable(n) => ExprV::Variable(n@),
        Expression::Binary(l, op, r) => ExprV::Binary(
            Box::new(spanned_expr_view(*l)),
            op,
            Box::new(spanned_expr_view(*r)),
        ),
        Expression::Block(b) => ExprV::Block(block_view(*b)),
    }
}

pub open spec fn spanned_expr_view(e: SpannedExpression) -> SpannedExprV
    decreases e,
{
    SpannedExprV { expr: expr_view(e.expr), span: e.span }
}

pub open spec fn block_view(b: BlockDef) -> BlockV
    decreases b,
{
    BlockV {
        params: Seq::new(b.params@.len(), |i: int| b.params@[i]@),
        body: Seq::new(
            b.body@.len(),
            |i: int|
                if 0 <= i < b.body@.len() {
                    pipeline_view(b.body@[i])
                } else {
                    PipelineV { list: Seq::empty() }
                },
        ),
    }
}

pub open spec fn pipeline_view(p: Pipeline) -> PipelineV
    decreases p,
{
    PipelineV {
        list: Seq::new(
            p.list@.len(),
            |i: int|
                if 0 <= i < p.list@.len() {
                    spanned_expr_view(p.list@[i])
                } else {
                    SpannedExprV { expr: ExprV::Literal(LitV::Nothing), span: Span { start: 0, end: 0 } }
                },
        ),
    }
}

impl View for Expression {
    type V = ExprV;

    open spec fn view(&self) -> ExprV {
        expr_view(*self)
    }
}

impl View for SpannedExpression {
    type V = SpannedExprV;

    open spec fn view(&self) -> SpannedExprV {
        spanned_expr_view(*self)
    }
}

impl View for BlockDef {
    type V = BlockV;

    open spec fn view(&self) -> BlockV {
        block_view(*self)
    }
}

impl View for Pipeline {
    type V = PipelineV;

    open spec fn view(&self) -> PipelineV {
        pipeline_view(*self)
    }
}

impl Literal {
    pub fn duplicate(&self) -> (r: Literal)
        ensures
            lit_view(r) == lit_view(*self),
    {
        match self {
            Literal::Nothing => Literal::Nothing,
            Literal::Int(i) => Literal::Int(*i),
            Literal::Bool(b) => Literal::Bool(*b),
            Literal::Text(s) => Literal::Text(s.clone()),
        }
    }
}

impl SpannedExpression {
    pub fn duplicate(&self) -> (r: SpannedExpression)
        ensures
            r@ == self@,
        decreases *self,
    {
        SpannedExpression { expr: self.expr.duplicate(), span: self.span }
    }
}

impl Expression {
    pub fn duplicate(&self) -> (r: Expression)
        ensures
            r@ == self@,
        decreases *self,
    {
        match self {
            Expression::Literal(l) => Expression::Literal(l.duplicate()),
            Expression::Variable(n) => Expression::Variable(n.clone()),
            Expression::Binary(l, op, r) => Expression::Binary(
                Box::new(l.duplicate()),
                *op,
                Box::new(r.duplicate()),
            ),
            Expression::Block(b) => Expression::Block(Box::new(b.duplicate())),
        }
    }
}

impl BlockDef {
    pub fn duplicate(&self) -> (r: BlockDef)
        ensures
            r@ == self@,
        decreases *self,
    {
        let mut params: Vec<String> = Vec::new();
        let mut i: usize = 0;
        while i < self.params.len()
            invariant
                0 <= i <= self.params@.len(),
                params@.len() == i,
                forall|j: int| 0 <= j < i ==> params@[j]@ == self.params@[j]@,
            decreases self.params@.len() - i,
        {
            params.push(self.params[i].clone());
            i = i + 1;
        }
        let mut body: Vec<Pipeline> = Vec::new();
        let mut k: usize = 0;
        while k < self.body.len()
            invariant
                0 <= k <= self.body@.len(),
                body@.len() == k,
                forall|j: int| 0 <= j < k ==> pipeline_view(body@[j]) == pipeline_view(self.body@[j]),
            decreases self.body@.len() - k,
        {
            body.push(self.body[k].duplicate());
            k = k + 1;
        }
        let r = BlockDef { params, body };
        proof {
            assert(r@.params =~= self@.params);
            assert(r@.body =~= self@.body);
        }
        r
    }
}

impl Literal {
    pub fn same_literal(&self, other: &Literal) -> (r: bool)
        ensures
            r == (lit_view(*self) == lit_view(*other)),
    {
        match (self, other) {
            (Literal::Nothing, Literal::Nothing) => true,
            (Literal::Int(a), Literal::Int(b)) => *a == *b,
            (Literal::Bool(a), Literal::Bool(b)) => *a == *b,
            (Literal::Text(a), Literal::Text(b)) => *a == *b,
            _ => false,
        }
    }
}

impl SpannedExpression {
    pub fn same_expression(&self, other: &SpannedExpression) -> (r: bool)
        ensures
            r == (self@ == other@),
        decreases *self,
    {
        if !(self.span == other.span) {
            return false;
        }
        match (&self.expr, &other.expr) {
            (Expression::Literal(a), Expression::Literal(b)) => a.same_literal(b),
            (Expression::Variable(a), Expression::Variable(b)) => *a == *b,
            (Expression::Binary(al, aop, ar), Expression::Binary(bl, bop, br)) => *aop == *bop
                && al.same_expression(bl) && ar.same_expression(br),
            (Expression::Block(a), Expression::Block(b)) => a.same_block(b),
            _ => false,
        }
    }
}

impl BlockDef {
    pub fn same_block(&self, other: &BlockDef) -> (r: bool)
        ensures
            r == (self@ == other@),
        decreases *self,
    {
        if self.params.len() != other.params.len() || self.body.len() != other.body.len() {
            proof {
                assert(self@.params.len() == self.params@.len());
                assert(other@.params.len() == other.params@.len());
                assert(self@.body.len() == self.body@.len());
                assert(other@.body.len() == other.body@.len());
            }
            return false;
        }
        let mut i: usize = 0;
        while i < self.params.len()
            invariant
                0 <= i <= self.params@.len(),
                self.params@.len() == other.params@.len(),
                forall|j: int| 0 <= j < i ==> self.params@[j]@ == other.params@[j]@,
            decreases self.params@.len() - i,
        {
            if !(self.params[i] == other.params[i]) {
                proof {
                    assert(self@.params[i as int] != other@.params[i as int]);
                }
                return false;
            }
            i = i + 1;
        }
        let mut k: usize = 0;
        while k < self.body.len()
            invariant
                0 <= k <= self.body@.len(),
                self.body@.len() == other.body@.len(),
                forall|j: int|
                    0 <= j < k ==> pipeline_view(self.body@[j]) == pipeline_view(other.body@[j]),
            decreases self.body@.len() - k,
        {
            if !self.body[k].same_pipeline(&other.body[k]) {
                proof {
                    assert(self@.body[k as int] != other@.body[k as int]);
                }
                return false;
            }
            k = k + 1;
        }
        proof {
            assert(self@.params =~= other@.params);
            assert(self@.body =~= other@.body);
        }
        true
    }
}

impl Pipeline {
    pub fn same_pipeline(&self, other: &Pipeline) -> (r: bool)
        ensures
            r == (self@ == other@),
        decreases *self,
    {
        if self.list.len() != other.list.len() {
            proof {
                assert(self@.list.len() == self.list@.len());
                assert(other@.list.len() == other.list@.len());
            }
            return false;
        }
        let mut i: usize = 0;
        while i < self.list.len()
            invariant
                0 <= i <= self.list@.len(),
                self.list@.len() == other.list@.len(),
                forall|j: int|
                    0 <= j < i ==> spanned_expr_view(self.list@[j]) == spanned_expr_view(
                        other.list@[j],
                    ),
            decreases self.list@.len() - i,
        {
            if !self.list[i].same_expression(&other.list[i]) {
                proof {
                    assert(self@.list[i as int] != other@.list[i as int]);
                }
                return false;
            }
            i = i + 1;
        }
        proof {
            assert(self@.list =~= other@.list);
        }
        true
    }
}

impl Pipeline {
    pub fn duplicate(&self) -> (r: Pipeline)
        ensures
            r@ == self@,
        decreases *self,
    {
        let mut list: Vec<SpannedExpression> = Vec::new();
        let mut i: usize = 0;
        while i < self.list.len()
            invariant
                0 <= i <= self.list@.len(),
                list@.len() == i,
                forall|j: int|
                    0 <= j < i ==> spanned_expr_view(list@[j]) == spanned_expr_view(self.list@[j]),
            decreases self.list@.len() - i,
        {
            list.push(self.list[i].duplicate());
            i = i + 1;
        }
        let r = Pipeline { list };
        proof {
            assert(r@.list =~= self@.list);
        }
        r
    }
}

} // verus!
