use vstd::prelude::*;

use crate::scalar::{IntScalar, Scalar};

verus! {

/// The ways a tensor constructor or operation can reject its arguments.
#[derive(Debug, Clone, Copy, PartialEq, Eq, Structural)]
pub enum TensorError {
    /// Two operands that must agree in shape (or in inner matrix dimension)
    /// do not.
    ShapeMismatch,
    /// A shape of length zero or above two was supplied.
    InvalidRank,
    /// The data length does not match the element count the shape declares.
    InconsistentData,
}

impl TensorError {
    /// The human-readable description of the error.
    pub fn message(&self) -> (r: &'static str)
        ensures
            *self == TensorError::ShapeMismatch ==> r@
                == "Tensor shapes do not match for the operation."@,
            *self == TensorError::InvalidRank ==> r@ == "Tensor rank is invalid (must be 1D or 2D)."@,
            *self == TensorError::InconsistentData ==> r@
                == "Data length does not match tensor shape."@,
    {
        match self {
            TensorError::ShapeMismatch => "Tensor shapes do not match for the operation.",
            TensorError::InvalidRank => "Tensor rank is invalid (must be 1D or 2D).",
            TensorError::InconsistentData => "Data length does not match tensor shape.",
        }
    }
}

/// The mathematical content of a tensor: its elements in row-major order and
/// its shape.
#[verifier::ext_equal]
#[verifier::reject_recursive_types(T)]
pub ghost struct TensorModel<T> {
    pub data: Seq<T>,
    pub shape: Seq<usize>,
}

/// A shape of rank one (a vector) or two (a matrix).
pub open spec fn valid_rank(shape: Seq<usize>) -> bool {
    1 <= shape.len() <= 2
}

/// The number of elements a shape of rank at most two declares.
pub open spec fn elem_count(shape: Seq<usize>) -> int {
    if shape.len() == 1 {
        shape[0] as int
    } else if shape.len() >= 2 {
        shape[0] * shape[1]
    } else {
        1
    }
}

/// A well-formed tensor model: either the empty sentinel (no shape, no data)
/// or a tensor of rank one or two whose data length matches its shape.
pub open spec fn model_wf<T>(m: TensorModel<T>) -> bool {
    ||| (m.shape.len() == 0 && m.data.len() == 0)
    ||| (valid_rank(m.shape) && m.data.len() == elem_count(m.shape))
}

/// The model of the empty sentinel: no data, no shape.
pub open spec fn empty_model<T>() -> TensorModel<T> {
    TensorModel { data: Seq::empty(), shape: Seq::empty() }
}

/// `n` copies of the value `v`.
pub open spec fn filled<T>(n: int, v: T) -> Seq<T> {
    Seq::new(n as nat, |i: int| v)
}

// The element-wise operations, named so that each tensor operation can state
// exactly which scalar function it applies.

/// Pairwise `add_spec` over two equally long sequences.
pub open spec fn add_data<T: Scalar>(a: Seq<T>, b: Seq<T>) -> Seq<T> {
    Seq::new(a.len(), |i: int| T::add_spec(a[i], b[i]))
}

/// Pairwise `sub_spec`.
pub open spec fn sub_data<T: Scalar>(a: Seq<T>, b: Seq<T>) -> Seq<T> {
    Seq::new(a.len(), |i: int| T::sub_spec(a[i], b[i]))
}

/// Pairwise `mul_spec`.
pub open spec fn mul_data<T: Scalar>(a: Seq<T>, b: Seq<T>) -> Seq<T> {
    Seq::new(a.len(), |i: int| T::mul_spec(a[i], b[i]))
}

/// Pairwise `div_spec`.
pub open spec fn div_data<T: Scalar>(a: Seq<T>, b: Seq<T>) -> Seq<T> {
    Seq::new(a.len(), |i: int| T::div_spec(a[i], b[i]))
}

/// Element-wise `abs_spec`.
pub open spec fn abs_data<T: Scalar>(a: Seq<T>) -> Seq<T> {
    Seq::new(a.len(), |i: int| T::abs_spec(a[i]))
}

/// Element-wise `powf_spec` with the fixed exponent `p`.
pub open spec fn powf_data<T: Scalar>(a: Seq<T>, p: T) -> Seq<T> {
    Seq::new(a.len(), |i: int| T::powf_spec(a[i], p))
}

/// Element-wise `mul_spec` with the fixed right factor `k`.
pub open spec fn scale_data<T: Scalar>(a: Seq<T>, k: T) -> Seq<T> {
    Seq::new(a.len(), |i: int| T::mul_spec(a[i], k))
}

/// Element-wise `relu_spec`.
pub open spec fn relu_data<T: Scalar>(a: Seq<T>) -> Seq<T> {
    Seq::new(a.len(), |i: int| T::relu_spec(a[i]))
}

/// Element-wise `relu_prime_spec`.
pub open spec fn relu_prime_data<T: Scalar>(a: Seq<T>) -> Seq<T> {
    Seq::new(a.len(), |i: int| T::relu_prime_spec(a[i]))
}

/// Element-wise `exp_spec`.
pub open spec fn exp_data<T: Scalar>(a: Seq<T>) -> Seq<T> {
    Seq::new(a.len(), |i: int| T::exp_spec(a[i]))
}

/// The outcome an element-wise binary operation owes its caller: a shape
/// mismatch is reported first, then an invalid rank (the empty sentinel);
/// on two equal shapes of valid rank the operation must succeed.
pub open spec fn ew_error<T>(a: TensorModel<T>, b: TensorModel<T>) -> Option<TensorError> {
    if a.shape != b.shape {
        Some(TensorError::ShapeMismatch)
    } else if !valid_rank(a.shape) {
        Some(TensorError::InvalidRank)
    } else {
        None
    }
}

/// The outcome an element-wise unary operation owes its caller: it fails
/// exactly on the empty sentinel, whose rank is invalid.
pub open spec fn unary_error<T>(a: TensorModel<T>) -> Option<TensorError> {
    if !valid_rank(a.shape) {
        Some(TensorError::InvalidRank)
    } else {
        None
    }
}

/// A binary scalar operation, as a value, so one loop serves all four
/// element-wise binary tensor operations.
enum BinOp {
    Add,
    Sub,
    Mul,
    Div,
}

/// A unary scalar operation (two of them carrying a fixed scalar operand).
#[verifier::reject_recursive_types(T)]
enum UnOp<T> {
    Abs,
    Powf(T),
    Scale(T),
    Relu,
    ReluPrime,
    Exp,
}

spec fn bin_spec<T: Scalar>(op: BinOp, a: T, b: T) -> T {
    match op {
        BinOp::Add => T::add_spec(a, b),
        BinOp::Sub => T::sub_spec(a, b),
        BinOp::Mul => T::mul_spec(a, b),
        BinOp::Div => T::div_spec(a, b),
    }
}

spec fn un_spec<T: Scalar>(op: UnOp<T>, a: T) -> T {
    match op {
        UnOp::Abs => T::abs_spec(a),
        UnOp::Powf(p) => T::powf_spec(a, p),
        UnOp::Scale(k) => T::mul_spec(a, k),
        UnOp::Relu => T::relu_spec(a),
        UnOp::ReluPrime => T::relu_prime_spec(a),
        UnOp::Exp => T::exp_spec(a),
    }
}

spec fn map2<T: Scalar>(op: BinOp, a: Seq<T>, b: Seq<T>) -> Seq<T> {
    Seq::new(a.len(), |i: int| bin_spec(op, a[i], b[i]))
}

spec fn map1<T: Scalar>(op: UnOp<T>, a: Seq<T>) -> Seq<T> {
    Seq::new(a.len(), |i: int| un_spec(op, a[i]))
}

fn bin_eval<T: Scalar>(op: &BinOp, a: T, b: T) -> (r: T)
    ensures
        r == bin_spec(*op, a, b),
{
    match op {
        BinOp::Add => T::add(a, b),
        BinOp::Sub => T::sub(a, b),
        BinOp::Mul => T::mul(a, b),
        BinOp::Div => T::div(a, b),
    }
}

fn un_eval<T: Scalar>(op: &UnOp<T>, a: T) -> (r: T)
    ensures
        r == un_spec(*op, a),
{
    match op {
        UnOp::Abs => T::abs(a),
        UnOp::Powf(p) => T::powf(a, *p),
        UnOp::Scale(k) => T::mul(a, *k),
        UnOp::Relu => T::relu(a),
        UnOp::ReluPrime => T::relu_prime(a),
        UnOp::Exp => T::exp(a),
    }
}

/// A rank-limited numeric tensor: a flat row-major buffer of scalars together
/// with a shape of rank one (vector) or two (matrix), or the empty sentinel
/// standing for "not yet computed". Every operation returns a fresh value;
/// none mutates its operands.
#[derive(Debug)]
pub struct Tensor<T: Scalar> {
    data: Vec<T>,
    shape: Vec<usize>,
}

impl<T: Scalar> View for Tensor<T> {
    type V = TensorModel<T>;

    closed spec fn view(&self) -> TensorModel<T> {
        TensorModel { data: self.data@, shape: self.shape@ }
    }
}

impl<T: Scalar> Tensor<T> {
    #[verifier::type_invariant]
    pub(crate) open spec fn wf(self) -> bool {
        model_wf(self@)
    }

    /// A tensor holding `data` with the given shape. Rejects a shape whose
    /// rank is not one or two, and data whose length does not match the
    /// shape's element count; accepts everything else unchanged.
    pub fn new(data: Vec<T>, shape: Vec<usize>) -> (r: Result<Tensor<T>, TensorError>)
        ensures
            match r {
                Ok(t) => valid_rank(shape@) && data@.len() == elem_count(shape@) && t@.data
                    == data@ && t@.shape == shape@,
                Err(TensorError::InvalidRank) => !valid_rank(shape@),
                Err(TensorError::InconsistentData) => valid_rank(shape@) && data@.len()
                    != elem_count(shape@),
                Err(TensorError::ShapeMismatch) => false,
            },
    {
        if shape.len() == 0 || shape.len() > 2 {
            return Err(TensorError::InvalidRank);
        }
        let count_opt: Option<usize> = if shape.len() == 1 {
            Some(shape[0])
        } else {
            shape[0].checked_mul(shape[1])
        };
        match count_opt {
            Some(count) => {
                if data.len() != count {
                    return Err(TensorError::InconsistentData);
                }
                Ok(Tensor { data, shape })
            },
            None => {
                // The element count exceeds usize::MAX, so no buffer can
                // match it.
                let n = data.len();
                proof {
                    assert(n < elem_count(shape@));
                }
                Err(TensorError::InconsistentData)
            },
        }
    }

    /// A tensor of the given shape filled with the multiplicative identity.
    pub fn one(shape: Vec<usize>) -> (r: Result<Tensor<T>, TensorError>)
        requires
            valid_rank(shape@) ==> elem_count(shape@) <= usize::MAX,
        ensures
            match r {
                Ok(t) => valid_rank(shape@) && t@.shape == shape@ && t@.data == filled(
                    elem_count(shape@),
                    T::one_spec(),
                ),
                Err(TensorError::InvalidRank) => !valid_rank(shape@),
                _ => false,
            },
    {
        if shape.len() == 0 || shape.len() > 2 {
            return Err(TensorError::InvalidRank);
        }
        let count: usize = if shape.len() == 1 {
            shape[0]
        } else {
            shape[0] * shape[1]
        };
        let data = filled_vec(count, T::one());
        Ok(Tensor { data, shape })
    }

    /// The empty sentinel: no data, no shape. It is the one tensor whose
    /// rank is invalid, and it is what a layer caches before its first
    /// forward pass.
    pub fn empty() -> (r: Tensor<T>)
        ensures
            r@ == empty_model::<T>(),
    {
        let t = Tensor { data: Vec::new(), shape: Vec::new() };
        proof {
            assert(t@ =~= empty_model::<T>());
        }
        t
    }

    /// The elements, row-major.
    pub fn data(&self) -> (r: &Vec<T>)
        ensures
            r@ == self@.data,
    {
        &self.data
    }

    /// The shape.
    pub fn shape(&self) -> (r: &Vec<usize>)
        ensures
            r@ == self@.shape,
    {
        &self.shape
    }

    /// An independent copy with the same elements and shape.
    pub fn clone(&self) -> (r: Tensor<T>)
        ensures
            r@ == self@,
    {
        proof {
            use_type_invariant(self);
        }
        let mut data: Vec<T> = Vec::new();
        let mut i: usize = 0;
        while i < self.data.len()
            invariant
                i <= self.data.len(),
                data@ =~= self.data@.subrange(0, i as int),
            decreases self.data.len() - i,
        {
            data.push(self.data[i]);
            i = i + 1;
        }
        let mut shape: Vec<usize> = Vec::new();
        let mut j: usize = 0;
        while j < self.shape.len()
            invariant
                j <= self.shape.len(),
                shape@ =~= self.shape@.subrange(0, j as int),
            decreases self.shape.len() - j,
        {
            shape.push(self.shape[j]);
            j = j + 1;
        }
        proof {
            assert(data@ =~= self.data@);
            assert(shape@ =~= self.shape@);
        }
        Tensor { data, shape }
    }

    /// One loop for the four element-wise binary operations: checks the
    /// shapes, applies the scalar operation pairwise, and keeps the shape.
    fn element_wise_op(&self, other: &Tensor<T>, op: BinOp) -> (r: Result<Tensor<T>, TensorError>)
        ensures
            match r {
                Ok(t) => ew_error(self@, other@) is None && t@.shape == self@.shape && t@.data
                    == map2(op, self@.data, other@.data),
                Err(e) => ew_error(self@, other@) == Some(e),
            },
    {
        proof {
            use_type_invariant(self);
            use_type_invariant(other);
        }
        if !shapes_equal(&self.shape, &other.shape) {
            return Err(TensorError::ShapeMismatch);
        }
        if self.shape.len() == 0 || self.shape.len() > 2 {
            return Err(TensorError::InvalidRank);
        }
        let n = self.data.len();
        let mut data: Vec<T> = Vec::new();
        let mut i: usize = 0;
        while i < n
            invariant
                i <= n,
                n == self@.data.len(),
                other@.data.len() == n,
                data@.len() == i,
                forall|j: int| 0 <= j < i ==> data@[j] == bin_spec(op, self@.data[j], other@.data[j]),
            decreases n - i,
        {
            data.push(bin_eval(&op, self.data[i], other.data[i]));
            i = i + 1;
        }
        let shape = clone_usize_vec(&self.shape);
        proof {
            assert(data@ =~= map2(op, self@.data, other@.data));
        }
        Ok(Tensor { data, shape })
    }

    /// One loop for the element-wise unary operations.
    fn element_wise_op_single(&self, op: UnOp<T>) -> (r: Result<Tensor<T>, TensorError>)
        ensures
            match r {
                Ok(t) => unary_error(self@) is None && t@.shape == self@.shape && t@.data == map1(
                    op,
                    self@.data,
                ),
                Err(e) => unary_error(self@) == Some(e),
            },
    {
        proof {
            use_type_invariant(self);
        }
        if self.shape.len() == 0 || self.shape.len() > 2 {
            return Err(TensorError::InvalidRank);
        }
        let n = self.data.len();
        let mut data: Vec<T> = Vec::new();
        let mut i: usize = 0;
        while i < n
            invariant
                i <= n,
                n == self@.data.len(),
                data@.len() == i,
                forall|j: int| 0 <= j < i ==> data@[j] == un_spec(op, self@.data[j]),
            decreases n - i,
        {
            data.push(un_eval(&op, self.data[i]));
            i = i + 1;
        }
        let shape = clone_usize_vec(&self.shape);
        proof {
            assert(data@ =~= map1(op, self@.data));
        }
        Ok(Tensor { data, shape })
    }

    /// Element-wise sum. Fails with `ShapeMismatch` unless the shapes are
    /// identical; no broadcasting.
    pub fn add(&self, other: &Tensor<T>) -> (r: Result<Tensor<T>, TensorError>)
        ensures
            match r {
                Ok(t) => ew_error(self@, other@) is None && t@.shape == self@.shape && t@.data
                    == add_data(self@.data, other@.data),
                Err(e) => ew_error(self@, other@) == Some(e),
            },
    {
        let r = self.element_wise_op(other, BinOp::Add);
        proof {
            if r is Ok {
                assert(map2(BinOp::Add, self@.data, other@.data) =~= add_data(
                    self@.data,
                    other@.data,
                ));
            }
        }
        r
    }

    /// Element-wise difference.
    pub fn sub(&self, other: &Tensor<T>) -> (r: Result<Tensor<T>, TensorError>)
        ensures
            match r {
                Ok(t) => ew_error(self@, other@) is None && t@.shape == self@.shape && t@.data
                    == sub_data(self@.data, other@.data),
                Err(e) => ew_error(self@, other@) == Some(e),
            },
    {
        let r = self.element_wise_op(other, BinOp::Sub);
        proof {
            if r is Ok {
                assert(map2(BinOp::Sub, self@.data, other@.data) =~= sub_data(
                    self@.data,
                    other@.data,
                ));
            }
        }
        r
    }

    /// Element-wise product.
    pub fn mul(&self, other: &Tensor<T>) -> (r: Result<Tensor<T>, TensorError>)
        ensures
            match r {
                Ok(t) => ew_error(self@, other@) is None && t@.shape == self@.shape && t@.data
                    == mul_data(self@.data, other@.data),
                Err(e) => ew_error(self@, other@) == Some(e),
            },
    {
        let r = self.element_wise_op(other, BinOp::Mul);
        proof {
            if r is Ok {
                assert(map2(BinOp::Mul, self@.data, other@.data) =~= mul_data(
                    self@.data,
                    other@.data,
                ));
            }
        }
        r
    }

    /// Element-wise quotient. What a zero divisor yields is the scalar
    /// type's business (`div_spec`), not an error.
    pub fn div(&self, other: &Tensor<T>) -> (r: Result<Tensor<T>, TensorError>)
        ensures
            match r {
                Ok(t) => ew_error(self@, other@) is None && t@.shape == self@.shape && t@.data
                    == div_data(self@.data, other@.data),
                Err(e) => ew_error(self@, other@) == Some(e),
            },
    {
        let r = self.element_wise_op(other, BinOp::Div);
        proof {
            if r is Ok {
                assert(map2(BinOp::Div, self@.data, other@.data) =~= div_data(
                    self@.data,
                    other@.data,
                ));
            }
        }
        r
    }

    /// Element-wise absolute value.
    pub fn abs(&self) -> (r: Result<Tensor<T>, TensorError>)
        ensures
            match r {
                Ok(t) => unary_error(self@) is None && t@.shape == self@.shape && t@.data
                    == abs_data(self@.data),
                Err(e) => unary_error(self@) == Some(e),
            },
    {
        let r = self.element_wise_op_single(UnOp::Abs);
        proof {
            if r is Ok {
                assert(map1(UnOp::<T>::Abs, self@.data) =~= abs_data(self@.data));
            }
        }
        r
    }

    /// Element-wise power with the fixed exponent `power`.
    pub fn powf(&self, power: T) -> (r: Result<Tensor<T>, TensorError>)
        ensures
            match r {
                Ok(t) => unary_error(self@) is None && t@.shape == self@.shape && t@.data
                    == powf_data(self@.data, power),
                Err(e) => unary_error(self@) == Some(e),
            },
    {
        let r = self.element_wise_op_single(UnOp::Powf(power));
        proof {
            if r is Ok {
                assert(map1(UnOp::Powf(power), self@.data) =~= powf_data(self@.data, power));
            }
        }
        r
    }

    /// Every element multiplied by `scalar` (the element on the left).
    pub fn scale(&self, scalar: &T) -> (r: Result<Tensor<T>, TensorError>)
        ensures
            match r {
                Ok(t) => unary_error(self@) is None && t@.shape == self@.shape && t@.data
                    == scale_data(self@.data, *scalar),
                Err(e) => unary_error(self@) == Some(e),
            },
    {
        let r = self.element_wise_op_single(UnOp::Scale(*scalar));
        proof {
            if r is Ok {
                assert(map1(UnOp::Scale(*scalar), self@.data) =~= scale_data(self@.data, *scalar));
            }
        }
        r
    }

    /// Element-wise rectifier: each element replaced by `relu_spec` of it.
    pub fn relu(&self) -> (r: Result<Tensor<T>, TensorError>)
        ensures
            match r {
                Ok(t) => unary_error(self@) is None && t@.shape == self@.shape && t@.data
                    == relu_data(self@.data),
                Err(e) => unary_error(self@) == Some(e),
            },
    {
        let r = self.element_wise_op_single(UnOp::Relu);
        proof {
            if r is Ok {
                assert(map1(UnOp::<T>::Relu, self@.data) =~= relu_data(self@.data));
            }
        }
        r
    }

    /// Element-wise rectifier derivative: one where the element is positive,
    /// zero elsewhere.
    pub fn relu_prime(&self) -> (r: Result<Tensor<T>, TensorError>)
        ensures
            match r {
                Ok(t) => unary_error(self@) is None && t@.shape == self@.shape && t@.data
                    == relu_prime_data(self@.data),
                Err(e) => unary_error(self@) == Some(e),
            },
    {
        let r = self.element_wise_op_single(UnOp::ReluPrime);
        proof {
            if r is Ok {
                assert(map1(UnOp::<T>::ReluPrime, self@.data) =~= relu_prime_data(self@.data));
            }
        }
        r
    }

    /// Element-wise exponential.
    pub fn exp(&self) -> (r: Result<Tensor<T>, TensorError>)
        ensures
            match r {
                Ok(t) => unary_error(self@) is None && t@.shape == self@.shape && t@.data
                    == exp_data(self@.data),
                Err(e) => unary_error(self@) == Some(e),
            },
    {
        let r = self.element_wise_op_single(UnOp::Exp);
        proof {
            if r is Ok {
                assert(map1(UnOp::<T>::Exp, self@.data) =~= exp_data(self@.data));
            }
        }
        r
    }
}

/// Facts about the row-major position of a cell: `(r, c)` lands inside the
/// buffer, and dividing the position by the column count recovers `r` and `c`.
proof fn lemma_cell_index(r: int, c: int, rows: int, cols: int)
    requires
        0 <= r < rows,
        0 <= c < cols,
    ensures
        0 <= r * cols + c < rows * cols,
        (r * cols + c) / cols == r,
        (r * cols + c) % cols == c,
{
    assert(0 <= r * cols + c < rows * cols) by (nonlinear_arith)
        requires
            0 <= r < rows,
            0 <= c < cols,
    ;
    vstd::arithmetic::div_mod::lemma_fundamental_div_mod_converse_div(r * cols + c, cols, r, c);
    vstd::arithmetic::div_mod::lemma_fundamental_div_mod_converse_mod(r * cols + c, cols, r, c);
}

/// The converse: any position `q` inside an `rows x cols` buffer decomposes
/// into a row `q / cols` and a column `q % cols`.
proof fn lemma_cell_index_inverse(q: int, rows: int, cols: int)
    requires
        0 <= rows,
        0 <= cols,
        0 <= q < rows * cols,
    ensures
        0 < rows,
        0 < cols,
        0 <= q / cols < rows,
        0 <= q % cols < cols,
        (q / cols) * cols + (q % cols) == q,
{
    assert(0 < rows && 0 < cols) by (nonlinear_arith)
        requires
            0 <= rows,
            0 <= cols,
            0 <= q < rows * cols,
    ;
    assert(q < cols * rows) by (nonlinear_arith)
        requires
            q < rows * cols,
    ;
    vstd::arithmetic::div_mod::lemma_multiply_divide_lt(q, cols, rows);
    vstd::arithmetic::div_mod::lemma_mod_bound(q, cols);
    vstd::arithmetic::div_mod::lemma_fundamental_div_mod(q, cols);
    assert((q / cols) * cols == cols * (q / cols)) by (nonlinear_arith);
}

/// The transpose of a model: a matrix `[r, c]` becomes `[c, r]` with
/// `out[j * r + i] == in[i * c + j]`; a vector is its own transpose.
pub open spec fn transpose_model<T>(m: TensorModel<T>) -> TensorModel<T> {
    if m.shape.len() == 1 {
        m
    } else {
        let rows = m.shape[0] as int;
        let cols = m.shape[1] as int;
        TensorModel {
            data: Seq::new(
                (rows * cols) as nat,
                |q: int| m.data[(q % rows) * cols + q / rows],
            ),
            shape: seq![m.shape[1], m.shape[0]],
        }
    }
}

impl<T: Scalar> Tensor<T> {
    /// The transpose. For a matrix `[r, c]`, a fresh `[c, r]` tensor with
    /// `out[j * r + i] == in[i * c + j]`; for a vector, an identical copy;
    /// for the empty sentinel, `InvalidRank`.
    #[verifier::loop_isolation(false)]
    pub fn transpose(&self) -> (r: Result<Tensor<T>, TensorError>)
        ensures
            match r {
                Ok(t) => valid_rank(self@.shape) && t@ == transpose_model(self@),
                Err(TensorError::InvalidRank) => !valid_rank(self@.shape),
                _ => false,
            },
    {
        proof {
            use_type_invariant(self);
        }
        if self.shape.len() != 1 && self.shape.len() != 2 {
            return Err(TensorError::InvalidRank);
        }
        if self.shape.len() == 1 {
            return Ok(self.clone());
        }
        let rows = self.shape[0];
        let cols = self.shape[1];
        let len = self.data.len();
        let zero = T::zero();
        let mut data: Vec<T> = Vec::new();
        let mut f: usize = 0;
        while f < len
            invariant
                f <= len,
                data@.len() == f,
            decreases len - f,
        {
            data.push(zero);
            f = f + 1;
        }
        let ghost src = self@.data;
        let mut row: usize = 0;
        while row < rows
            invariant
                row <= rows,
                len == rows * cols,
                src.len() == len,
                self@.shape.len() == 2,
                rows == self@.shape[0],
                cols == self@.shape[1],
                data@.len() == len,
                forall|i: int, j: int|
                    0 <= i < row && 0 <= j < cols ==> #[trigger] data@[j * (rows as int) + i]
                        == src[i * (cols as int) + j],
            decreases rows - row,
        {
            let mut col: usize = 0;
            while col < cols
                invariant
                    col <= cols,
                    row < rows,
                    len == rows * cols,
                    src.len() == len,
                    data@.len() == len,
                    forall|i: int, j: int|
                        0 <= i < row && 0 <= j < cols ==> #[trigger] data@[j * (rows as int) + i]
                            == src[i * (cols as int) + j],
                    forall|j: int|
                        0 <= j < col ==> #[trigger] data@[j * (rows as int) + row] == src[(
                        row as int) * (cols as int) + j],
                decreases cols - col,
            {
                proof {
                    lemma_cell_index(row as int, col as int, rows as int, cols as int);
                    lemma_cell_index(col as int, row as int, cols as int, rows as int);
                    assert((cols as int) * (rows as int) == (rows as int) * (cols as int))
                        by (nonlinear_arith);
                }
                let v = self.data[row * cols + col];
                let ghost before = data@;
                data.set(col * rows + row, v);
                proof {
                    let ri = rows as int;
                    let ci = cols as int;
                    let cur = (col as int) * ri + (row as int);
                    assert forall|i: int, j: int|
                        0 <= i < row && 0 <= j < cols implies #[trigger] data@[j * ri + i] == src[i
                        * ci + j] by {
                        lemma_cell_index(j, i, ci, ri);
                        if j * ri + i == cur {
                            assert((j * ri + i) % ri == i);
                            assert(cur % ri == row as int);
                            assert(false);
                        }
                        assert(data@[j * ri + i] == before[j * ri + i]);
                    }
                    assert forall|j: int|
                        0 <= j <= col implies #[trigger] data@[j * ri + (row as int)] == src[(
                        row as int) * ci + j] by {
                        lemma_cell_index(j, row as int, ci, ri);
                        if j < col {
                            if j * ri + (row as int) == cur {
                                assert((j * ri + (row as int)) / ri == j);
                                assert(cur / ri == col as int);
                                assert(false);
                            }
                            assert(data@[j * ri + (row as int)] == before[j * ri + (row as int)]);
                        } else {
                            assert(data@[cur] == v);
                        }
                    }
                }
                col = col + 1;
            }
            proof {
                let ri = rows as int;
                let ci = cols as int;
                assert forall|i: int, j: int|
                    0 <= i < row + 1 && 0 <= j < cols implies #[trigger] data@[j * ri + i] == src[i
                    * ci + j] by {
                    if i == row {
                        assert(data@[j * ri + (row as int)] == src[(row as int) * ci + j]);
                    }
                }
            }
            row = row + 1;
        }
        let mut shape: Vec<usize> = Vec::new();
        shape.push(cols);
        shape.push(rows);
        proof {
            let t = transpose_model(self@);
            assert forall|q: int| 0 <= q < len implies data@[q] == t.data[q] by {
                lemma_cell_index_inverse(q, cols as int, rows as int);
                assert((rows as int) * (cols as int) == (cols as int) * (rows as int))
                    by (nonlinear_arith);
            }
            assert(data@ =~= t.data);
            assert(shape@ =~= t.shape);
        }
        Ok(Tensor { data, shape })
    }
}

/// The row count of a left matmul operand: a vector is promoted to one row.
pub open spec fn left_rows(shape: Seq<usize>) -> int {
    if shape.len() == 1 {
        1
    } else {
        shape[0] as int
    }
}

/// The column count of a left matmul operand: a vector of length `n` is a
/// `[1, n]` row.
pub open spec fn left_cols(shape: Seq<usize>) -> int {
    if shape.len() == 1 {
        shape[0] as int
    } else {
        shape[1] as int
    }
}

/// The row count of a right matmul operand: a vector of length `n` is an
/// `[n, 1]` column.
pub open spec fn right_rows(shape: Seq<usize>) -> int {
    shape[0] as int
}

/// The column count of a right matmul operand.
pub open spec fn right_cols(shape: Seq<usize>) -> int {
    if shape.len() == 1 {
        1
    } else {
        shape[1] as int
    }
}

/// The outcome a matrix multiplication owes its caller: `InvalidRank` if
/// either operand's rank is not one or two, `ShapeMismatch` if the promoted
/// inner dimensions disagree; otherwise it must succeed.
pub open spec fn matmul_error<T>(a: TensorModel<T>, b: TensorModel<T>) -> Option<TensorError> {
    if !valid_rank(a.shape) {
        Some(TensorError::InvalidRank)
    } else if !valid_rank(b.shape) {
        Some(TensorError::InvalidRank)
    } else if left_cols(a.shape) != right_rows(b.shape) {
        Some(TensorError::ShapeMismatch)
    } else {
        None
    }
}

/// The first `k` terms of the dot product behind output cell `(i, j)`,
/// accumulated left to right from the additive identity: the order both
/// multiplication strategies add terms in.
pub open spec fn dot_prefix<T: Scalar>(
    a: Seq<T>,
    b: Seq<T>,
    ac: int,
    bc: int,
    i: int,
    j: int,
    k: int,
) -> T
    decreases k,
{
    if k <= 0 {
        T::zero_spec()
    } else {
        T::add_spec(
            dot_prefix(a, b, ac, bc, i, j, k - 1),
            T::mul_spec(a[i * ac + (k - 1)], b[(k - 1) * bc + j]),
        )
    }
}

/// The row-major product data of an `[ar, ac]` by `[ac, bc]` multiplication:
/// each cell is its full dot product.
pub open spec fn matmul_data<T: Scalar>(a: Seq<T>, b: Seq<T>, ar: int, ac: int, bc: int) -> Seq<
    T,
> {
    Seq::new((ar * bc) as nat, |q: int| dot_prefix(a, b, ac, bc, q / bc, q % bc, ac))
}

/// The shape of a product, after vector promotion: two vectors give `[1]`, a
/// vector on one side drops that side's dimension, two matrices give
/// `[a_rows, b_cols]`.
pub open spec fn matmul_shape(a: Seq<usize>, b: Seq<usize>) -> Seq<usize> {
    if a.len() == 1 && b.len() == 1 {
        seq![1usize]
    } else if a.len() == 1 {
        seq![b[1]]
    } else if b.len() == 1 {
        seq![a[0]]
    } else {
        seq![a[0], b[1]]
    }
}

/// The full product of two models: the one result both multiplication
/// strategies return.
pub open spec fn matmul_model<T: Scalar>(a: TensorModel<T>, b: TensorModel<T>) -> TensorModel<T> {
    TensorModel {
        data: matmul_data(
            a.data,
            b.data,
            left_rows(a.shape),
            left_cols(a.shape),
            right_cols(b.shape),
        ),
        shape: matmul_shape(a.shape, b.shape),
    }
}

/// The operands' buffer lengths, written over their promoted dimensions.
proof fn lemma_operand_sizes<T: Scalar>(a: TensorModel<T>, b: TensorModel<T>)
    requires
        model_wf(a),
        model_wf(b),
        matmul_error(a, b) is None,
    ensures
        a.data.len() == left_rows(a.shape) * left_cols(a.shape),
        b.data.len() == right_rows(b.shape) * right_cols(b.shape),
{
    if a.shape.len() == 1 {
        assert(1 * left_cols(a.shape) == left_cols(a.shape)) by (nonlinear_arith);
    }
    if b.shape.len() == 1 {
        assert(right_rows(b.shape) * 1 == right_rows(b.shape)) by (nonlinear_arith);
    }
}

/// A buffer whose cell `(i, j)` holds the full dot product is exactly the
/// product data.
proof fn lemma_matmul_grid<T: Scalar>(s: Seq<T>, a: Seq<T>, b: Seq<T>, ar: int, ac: int, bc: int)
    requires
        0 <= ar,
        0 <= bc,
        s.len() == ar * bc,
        forall|i: int, j: int|
            0 <= i < ar && 0 <= j < bc ==> #[trigger] s[i * bc + j] == dot_prefix(
                a,
                b,
                ac,
                bc,
                i,
                j,
                ac,
            ),
    ensures
        s =~= matmul_data(a, b, ar, ac, bc),
{
    assert forall|q: int| 0 <= q < ar * bc implies s[q] == dot_prefix(
        a,
        b,
        ac,
        bc,
        q / bc,
        q % bc,
        ac,
    ) by {
        lemma_cell_index_inverse(q, ar, bc);
        assert(s[(q / bc) * bc + (q % bc)] == dot_prefix(a, b, ac, bc, q / bc, q % bc, ac));
    }
}

impl<T: Scalar> Tensor<T> {
    /// The promoted dimensions of the two operands, or the error the
    /// multiplication owes: the shared argument check of both strategies.
    fn matmul_dims(&self, other: &Tensor<T>) -> (r: Result<(usize, usize, usize), TensorError>)
        ensures
            match r {
                Ok(d) => matmul_error(self@, other@) is None && d.0 == left_rows(self@.shape)
                    && d.1 == left_cols(self@.shape) && d.2 == right_cols(other@.shape),
                Err(e) => matmul_error(self@, other@) == Some(e),
            },
    {
        if self.shape.len() == 0 || self.shape.len() > 2 {
            return Err(TensorError::InvalidRank);
        }
        if other.shape.len() == 0 || other.shape.len() > 2 {
            return Err(TensorError::InvalidRank);
        }
        let (a_rows, a_cols) = if self.shape.len() == 1 {
            (1usize, self.shape[0])
        } else {
            (self.shape[0], self.shape[1])
        };
        let (b_rows, b_cols) = if other.shape.len() == 1 {
            (other.shape[0], 1usize)
        } else {
            (other.shape[0], other.shape[1])
        };
        if a_cols != b_rows {
            return Err(TensorError::ShapeMismatch);
        }
        Ok((a_rows, a_cols, b_cols))
    }

    /// The product's shape vector, after vector promotion.
    fn matmul_out_shape(&self, other: &Tensor<T>, a_rows: usize, b_cols: usize) -> (r: Vec<usize>)
        requires
            valid_rank(self@.shape),
            valid_rank(other@.shape),
            a_rows == left_rows(self@.shape),
            b_cols == right_cols(other@.shape),
        ensures
            r@ == matmul_shape(self@.shape, other@.shape),
    {
        let mut shape: Vec<usize> = Vec::new();
        if self.shape.len() == 1 && other.shape.len() == 1 {
            shape.push(1);
        } else if self.shape.len() == 1 {
            shape.push(b_cols);
        } else if other.shape.len() == 1 {
            shape.push(a_rows);
        } else {
            shape.push(a_rows);
            shape.push(b_cols);
        }
        proof {
            assert(shape@ =~= matmul_shape(self@.shape, other@.shape));
        }
        shape
    }

    /// Matrix multiplication by the textbook triple loop: for each output
    /// cell, accumulate the dot product of a row of `self` and a column of
    /// `other`, inner index ascending. Vectors are promoted (`[1, n]` on the
    /// left, `[n, 1]` on the right) and the result's shape drops the promoted
    /// dimensions. Walking `other` column-wise makes this the cache-unfriendly
    /// strategy; `matmul` returns the identical result faster.
    #[verifier::loop_isolation(false)]
    pub fn matmul_naive(&self, other: &Tensor<T>) -> (r: Result<Tensor<T>, TensorError>)
        requires
            matmul_error(self@, other@) is None ==> left_rows(self@.shape) * right_cols(
                other@.shape,
            ) <= usize::MAX,
        ensures
            match r {
                Ok(t) => matmul_error(self@, other@) is None && t@ == matmul_model(self@, other@),
                Err(e) => matmul_error(self@, other@) == Some(e),
            },
    {
        proof {
            use_type_invariant(self);
            use_type_invariant(other);
        }
        let (a_rows, a_cols, b_cols) = match self.matmul_dims(other) {
            Ok(d) => d,
            Err(e) => {
                return Err(e);
            },
        };
        let ghost ar = a_rows as int;
        let ghost ac = a_cols as int;
        let ghost bc = b_cols as int;
        let ghost ad = self@.data;
        let ghost bd = other@.data;
        let a_len = self.data.len();
        let b_len = other.data.len();
        proof {
            lemma_operand_sizes(self@, other@);
            assert(a_len == left_rows(self@.shape) * left_cols(self@.shape));
            assert(b_len == right_rows(other@.shape) * right_cols(other@.shape));
        }
        let mut data: Vec<T> = Vec::new();
        let mut i: usize = 0;
        while i < a_rows
            invariant
                i <= a_rows,
                data@.len() == i * bc,
                forall|p: int, q: int|
                    0 <= p < i && 0 <= q < bc ==> #[trigger] data@[p * bc + q] == dot_prefix(
                        ad,
                        bd,
                        ac,
                        bc,
                        p,
                        q,
                        ac,
                    ),
            decreases a_rows - i,
        {
            let mut j: usize = 0;
            while j < b_cols
                invariant
                    j <= b_cols,
                    i < a_rows,
                    data@.len() == i * bc + j,
                    forall|p: int, q: int|
                        0 <= p < i && 0 <= q < bc ==> #[trigger] data@[p * bc + q] == dot_prefix(
                            ad,
                            bd,
                            ac,
                            bc,
                            p,
                            q,
                            ac,
                        ),
                    forall|q: int|
                        0 <= q < j ==> #[trigger] data@[i * bc + q] == dot_prefix(
                            ad,
                            bd,
                            ac,
                            bc,
                            i as int,
                            q,
                            ac,
                        ),
                decreases b_cols - j,
            {
                let mut acc = T::zero();
                let mut k: usize = 0;
                while k < a_cols
                    invariant
                        k <= a_cols,
                        i < a_rows,
                        j < b_cols,
                        acc == dot_prefix(ad, bd, ac, bc, i as int, j as int, k as int),
                    decreases a_cols - k,
                {
                    proof {
                        lemma_cell_index(i as int, k as int, ar, ac);
                        lemma_cell_index(k as int, j as int, ac, bc);
                    }
                    acc = T::add(acc, T::mul(self.data[i * a_cols + k], other.data[k * b_cols + j]));
                    k = k + 1;
                }
                proof {
                    lemma_cell_index(i as int, j as int, ar, bc);
                }
                let ghost before = data@;
                data.push(acc);
                proof {
                    assert forall|p: int, q: int|
                        0 <= p < i && 0 <= q < bc implies #[trigger] data@[p * bc + q]
                        == dot_prefix(ad, bd, ac, bc, p, q, ac) by {
                        lemma_cell_index(p, q, i as int, bc);
                        assert(data@[p * bc + q] == before[p * bc + q]);
                    }
                }
                j = j + 1;
            }
            proof {
                assert((i as int + 1) * bc == i as int * bc + bc) by (nonlinear_arith);
                assert forall|p: int, q: int|
                    0 <= p < i + 1 && 0 <= q < bc implies #[trigger] data@[p * bc + q]
                    == dot_prefix(ad, bd, ac, bc, p, q, ac) by {
                    if p == i {
                        assert(data@[i as int * bc + q] == dot_prefix(
                            ad,
                            bd,
                            ac,
                            bc,
                            i as int,
                            q,
                            ac,
                        ));
                    }
                }
            }
            i = i + 1;
        }
        let shape = self.matmul_out_shape(other, a_rows, b_cols);
        proof {
            lemma_matmul_grid(data@, ad, bd, ar, ac, bc);
        }
        Ok(Tensor { data, shape })
    }

    /// Matrix multiplication in row-major `(i, k, j)` loop order: for each
    /// row of `self`, a row buffer accumulates multiples of `other`'s rows,
    /// so the innermost loop walks two contiguous rows. Returns exactly what
    /// `matmul_naive` returns — every output cell accumulates its dot product
    /// terms in the same ascending inner order — only faster on large
    /// matrices.
    #[verifier::loop_isolation(false)]
    pub fn matmul(&self, other: &Tensor<T>) -> (r: Result<Tensor<T>, TensorError>)
        requires
            matmul_error(self@, other@) is None ==> left_rows(self@.shape) * right_cols(
                other@.shape,
            ) <= usize::MAX,
        ensures
            match r {
                Ok(t) => matmul_error(self@, other@) is None && t@ == matmul_model(self@, other@),
                Err(e) => matmul_error(self@, other@) == Some(e),
            },
    {
        proof {
            use_type_invariant(self);
            use_type_invariant(other);
        }
        let (a_rows, a_cols, b_cols) = match self.matmul_dims(other) {
            Ok(d) => d,
            Err(e) => {
                return Err(e);
            },
        };
        let ghost ar = a_rows as int;
        let ghost ac = a_cols as int;
        let ghost bc = b_cols as int;
        let ghost ad = self@.data;
        let ghost bd = other@.data;
        let a_len = self.data.len();
        let b_len = other.data.len();
        proof {
            lemma_operand_sizes(self@, other@);
            assert(a_len == left_rows(self@.shape) * left_cols(self@.shape));
            assert(b_len == right_rows(other@.shape) * right_cols(other@.shape));
        }
        let mut data: Vec<T> = Vec::new();
        let mut i: usize = 0;
        while i < a_rows
            invariant
                i <= a_rows,
                data@.len() == i * bc,
                forall|p: int, q: int|
                    0 <= p < i && 0 <= q < bc ==> #[trigger] data@[p * bc + q] == dot_prefix(
                        ad,
                        bd,
                        ac,
                        bc,
                        p,
                        q,
                        ac,
                    ),
            decreases a_rows - i,
        {
            let mut row_buf = filled_vec(b_cols, T::zero());
            let mut k: usize = 0;
            while k < a_cols
                invariant
                    k <= a_cols,
                    i < a_rows,
                    row_buf@.len() == bc,
                    forall|q: int|
                        0 <= q < bc ==> #[trigger] row_buf@[q] == dot_prefix(
                            ad,
                            bd,
                            ac,
                            bc,
                            i as int,
                            q,
                            k as int,
                        ),
                decreases a_cols - k,
            {
                proof {
                    lemma_cell_index(i as int, k as int, ar, ac);
                }
                let aik = self.data[i * a_cols + k];
                let mut j: usize = 0;
                while j < b_cols
                    invariant
                        j <= b_cols,
                        i < a_rows,
                        k < a_cols,
                        aik == ad[i as int * ac + k as int],
                        row_buf@.len() == bc,
                        forall|q: int|
                            0 <= q < j ==> #[trigger] row_buf@[q] == dot_prefix(
                                ad,
                                bd,
                                ac,
                                bc,
                                i as int,
                                q,
                                k as int + 1,
                            ),
                        forall|q: int|
                            j <= q < bc ==> #[trigger] row_buf@[q] == dot_prefix(
                                ad,
                                bd,
                                ac,
                                bc,
                                i as int,
                                q,
                                k as int,
                            ),
                    decreases b_cols - j,
                {
                    proof {
                        lemma_cell_index(k as int, j as int, ac, bc);
                    }
                    let v = T::add(row_buf[j], T::mul(aik, other.data[k * b_cols + j]));
                    row_buf.set(j, v);
                    j = j + 1;
                }
                k = k + 1;
            }
            let mut j: usize = 0;
            while j < b_cols
                invariant
                    j <= b_cols,
                    i < a_rows,
                    row_buf@.len() == bc,
                    data@.len() == i * bc + j,
                    forall|q: int|
                        0 <= q < bc ==> #[trigger] row_buf@[q] == dot_prefix(
                            ad,
                            bd,
                            ac,
                            bc,
                            i as int,
                            q,
                            ac,
                        ),
                    forall|p: int, q: int|
                        0 <= p < i && 0 <= q < bc ==> #[trigger] data@[p * bc + q] == dot_prefix(
                            ad,
                            bd,
                            ac,
                            bc,
                            p,
                            q,
                            ac,
                        ),
                    forall|q: int|
                        0 <= q < j ==> #[trigger] data@[i * bc + q] == dot_prefix(
                            ad,
                            bd,
                            ac,
                            bc,
                            i as int,
                            q,
                            ac,
                        ),
                decreases b_cols - j,
            {
                proof {
                    lemma_cell_index(i as int, j as int, ar, bc);
                }
                let ghost before = data@;
                data.push(row_buf[j]);
                proof {
                    assert forall|p: int, q: int|
                        0 <= p < i && 0 <= q < bc implies #[trigger] data@[p * bc + q]
                        == dot_prefix(ad, bd, ac, bc, p, q, ac) by {
                        lemma_cell_index(p, q, i as int, bc);
                        assert(data@[p * bc + q] == before[p * bc + q]);
                    }
                }
                j = j + 1;
            }
            proof {
                assert((i as int + 1) * bc == i as int * bc + bc) by (nonlinear_arith);
                assert forall|p: int, q: int|
                    0 <= p < i + 1 && 0 <= q < bc implies #[trigger] data@[p * bc + q]
                    == dot_prefix(ad, bd, ac, bc, p, q, ac) by {
                    if p == i {
                        assert(data@[i as int * bc + q] == dot_prefix(
                            ad,
                            bd,
                            ac,
                            bc,
                            i as int,
                            q,
                            ac,
                        ));
                    }
                }
            }
            i = i + 1;
        }
        let shape = self.matmul_out_shape(other, a_rows, b_cols);
        proof {
            lemma_matmul_grid(data@, ad, bd, ar, ac, bc);
        }
        Ok(Tensor { data, shape })
    }
}

/// `n` copies of `v`, as a vector.
fn filled_vec<T: Scalar>(n: usize, v: T) -> (r: Vec<T>)
    ensures
        r@ == filled(n as int, v),
        r@.len() == n,
{
    let mut out: Vec<T> = Vec::new();
    let mut i: usize = 0;
    while i < n
        invariant
            i <= n,
            out@.len() == i,
            forall|j: int| 0 <= j < i ==> out@[j] == v,
        decreases n - i,
    {
        out.push(v);
        i = i + 1;
    }
    proof {
        assert(out@ =~= filled(n as int, v));
    }
    out
}

/// The first `k` elements of a buffer accumulated left to right from the
/// additive identity: the order the global sum adds elements in.
pub open spec fn fold_prefix<T: Scalar>(d: Seq<T>, k: int) -> T
    decreases k,
{
    if k <= 0 {
        T::zero_spec()
    } else {
        T::add_spec(fold_prefix(d, k - 1), d[k - 1])
    }
}

/// The sum of all elements, in buffer order.
pub open spec fn total_sum<T: Scalar>(d: Seq<T>) -> T {
    fold_prefix(d, d.len() as int)
}

/// The first `k` terms of column `c`'s sum, rows ascending.
pub open spec fn col_sum_prefix<T: Scalar>(d: Seq<T>, cols: int, c: int, k: int) -> T
    decreases k,
{
    if k <= 0 {
        T::zero_spec()
    } else {
        T::add_spec(col_sum_prefix(d, cols, c, k - 1), d[(k - 1) * cols + c])
    }
}

/// The column sums of an `[rows, cols]` matrix.
pub open spec fn col_sums<T: Scalar>(d: Seq<T>, rows: int, cols: int) -> Seq<T> {
    Seq::new(cols as nat, |c: int| col_sum_prefix(d, cols, c, rows))
}

/// The first `k` terms of row `r`'s sum, columns ascending.
pub open spec fn row_sum_prefix<T: Scalar>(d: Seq<T>, cols: int, r: int, k: int) -> T
    decreases k,
{
    if k <= 0 {
        T::zero_spec()
    } else {
        T::add_spec(row_sum_prefix(d, cols, r, k - 1), d[r * cols + (k - 1)])
    }
}

/// The row sums of an `[rows, cols]` matrix.
pub open spec fn row_sums<T: Scalar>(d: Seq<T>, rows: int, cols: int) -> Seq<T> {
    Seq::new(rows as nat, |r: int| row_sum_prefix(d, cols, r, cols))
}

/// A one-element tensor of shape `[1]`.
pub open spec fn scalar_tensor<T>(v: T) -> TensorModel<T> {
    TensorModel { data: seq![v], shape: seq![1usize] }
}

/// The outcome a reduction owes its caller: only an axis of two or above is
/// rejected; every tensor, the empty sentinel included, has a global sum.
pub open spec fn sum_error<T>(m: TensorModel<T>, axis: Option<usize>) -> Option<TensorError> {
    match axis {
        None => None,
        Some(a) => if a >= 2 {
            Some(TensorError::InvalidRank)
        } else {
            None
        },
    }
}

/// The reduction's result: no axis gives the global sum as a `[1]` tensor; on
/// a matrix, axis zero gives the column sums `[cols]` and axis one the row
/// sums `[rows]`; an axis on anything of rank below two degenerates to the
/// global sum.
pub open spec fn sum_model<T: Scalar>(m: TensorModel<T>, axis: Option<usize>) -> TensorModel<T> {
    match axis {
        None => scalar_tensor(total_sum(m.data)),
        Some(a) => if m.shape.len() < 2 {
            scalar_tensor(total_sum(m.data))
        } else if a == 0 {
            TensorModel {
                data: col_sums(m.data, m.shape[0] as int, m.shape[1] as int),
                shape: seq![m.shape[1]],
            }
        } else {
            TensorModel {
                data: row_sums(m.data, m.shape[0] as int, m.shape[1] as int),
                shape: seq![m.shape[0]],
            }
        },
    }
}

impl<T: Scalar> Tensor<T> {
    /// The sum of every element, as a `[1]` tensor.
    #[verifier::loop_isolation(false)]
    fn global_sum(&self) -> (r: Tensor<T>)
        ensures
            r@ == scalar_tensor(total_sum(self@.data)),
    {
        proof {
            use_type_invariant(self);
        }
        let n = self.data.len();
        let mut acc = T::zero();
        let mut i: usize = 0;
        while i < n
            invariant
                i <= n,
                acc == fold_prefix(self@.data, i as int),
            decreases n - i,
        {
            acc = T::add(acc, self.data[i]);
            i = i + 1;
        }
        let mut data: Vec<T> = Vec::new();
        data.push(acc);
        let mut shape: Vec<usize> = Vec::new();
        shape.push(1);
        proof {
            assert(data@ =~= scalar_tensor(total_sum(self@.data)).data);
            assert(shape@ =~= scalar_tensor(total_sum(self@.data)).shape);
        }
        Tensor { data, shape }
    }

    /// The reduction. `None` folds every element into a `[1]` tensor;
    /// `Some(0)` folds an `[r, c]` matrix into its `[c]` column sums,
    /// `Some(1)` into its `[r]` row sums (each degenerating to the global sum
    /// below rank two); any other axis is `InvalidRank`.
    #[verifier::loop_isolation(false)]
    pub fn sum(&self, axis: Option<usize>) -> (r: Result<Tensor<T>, TensorError>)
        ensures
            match r {
                Ok(t) => sum_error(self@, axis) is None && t@ == sum_model(self@, axis),
                Err(e) => sum_error(self@, axis) == Some(e),
            },
    {
        proof {
            use_type_invariant(self);
        }
        match axis {
            None => Ok(self.global_sum()),
            Some(0) => {
                if self.shape.len() < 2 {
                    return Ok(self.global_sum());
                }
                let rows = self.shape[0];
                let cols = self.shape[1];
                let n = self.data.len();
                let ghost d = self@.data;
                proof {
                    assert(n == rows * cols);
                }
                let mut out = filled_vec(cols, T::zero());
                let mut r0: usize = 0;
                while r0 < rows
                    invariant
                        r0 <= rows,
                        out@.len() == cols,
                        forall|c: int|
                            0 <= c < cols ==> #[trigger] out@[c] == col_sum_prefix(
                                d,
                                cols as int,
                                c,
                                r0 as int,
                            ),
                    decreases rows - r0,
                {
                    let mut c0: usize = 0;
                    while c0 < cols
                        invariant
                            c0 <= cols,
                            r0 < rows,
                            out@.len() == cols,
                            forall|c: int|
                                0 <= c < c0 ==> #[trigger] out@[c] == col_sum_prefix(
                                    d,
                                    cols as int,
                                    c,
                                    r0 as int + 1,
                                ),
                            forall|c: int|
                                c0 <= c < cols ==> #[trigger] out@[c] == col_sum_prefix(
                                    d,
                                    cols as int,
                                    c,
                                    r0 as int,
                                ),
                        decreases cols - c0,
                    {
                        proof {
                            lemma_cell_index(r0 as int, c0 as int, rows as int, cols as int);
                        }
                        let v = T::add(out[c0], self.data[r0 * cols + c0]);
                        out.set(c0, v);
                        c0 = c0 + 1;
                    }
                    r0 = r0 + 1;
                }
                let mut shape: Vec<usize> = Vec::new();
                shape.push(cols);
                proof {
                    assert(out@ =~= col_sums(d, rows as int, cols as int));
                    assert(shape@ =~= seq![self@.shape[1]]);
                }
                Ok(Tensor { data: out, shape })
            },
            Some(1) => {
                if self.shape.len() < 2 {
                    return Ok(self.global_sum());
                }
                let rows = self.shape[0];
                let cols = self.shape[1];
                let n = self.data.len();
                let ghost d = self@.data;
                proof {
                    assert(n == rows * cols);
                }
                let mut out = filled_vec(rows, T::zero());
                let mut r0: usize = 0;
                while r0 < rows
                    invariant
                        r0 <= rows,
                        out@.len() == rows,
                        forall|p: int|
                            0 <= p < r0 ==> #[trigger] out@[p] == row_sum_prefix(
                                d,
                                cols as int,
                                p,
                                cols as int,
                            ),
                        forall|p: int|
                            r0 <= p < rows ==> #[trigger] out@[p] == T::zero_spec(),
                    decreases rows - r0,
                {
                    let mut c0: usize = 0;
                    let mut acc = T::zero();
                    while c0 < cols
                        invariant
                            c0 <= cols,
                            r0 < rows,
                            acc == row_sum_prefix(d, cols as int, r0 as int, c0 as int),
                        decreases cols - c0,
                    {
                        proof {
                            lemma_cell_index(r0 as int, c0 as int, rows as int, cols as int);
                        }
                        acc = T::add(acc, self.data[r0 * cols + c0]);
                        c0 = c0 + 1;
                    }
                    out.set(r0, acc);
                    r0 = r0 + 1;
                }
                let mut shape: Vec<usize> = Vec::new();
                shape.push(rows);
                proof {
                    assert(out@ =~= row_sums(d, rows as int, cols as int));
                    assert(shape@ =~= seq![self@.shape[0]]);
                }
                Ok(Tensor { data: out, shape })
            },
            Some(_) => Err(TensorError::InvalidRank),
        }
    }
}

/// Transposing twice gives the tensor back: the transpose's transpose of any
/// well-formed tensor of valid rank is the tensor itself (for a vector each
/// transpose is already the identity).
pub proof fn lemma_transpose_involution<T: Scalar>(m: TensorModel<T>)
    requires
        model_wf(m),
        valid_rank(m.shape),
    ensures
        transpose_model(transpose_model(m)) == m,
{
    if m.shape.len() == 1 {
        assert(transpose_model(transpose_model(m)) == m);
    } else {
        let rows = m.shape[0] as int;
        let cols = m.shape[1] as int;
        let t = transpose_model(m);
        let u = transpose_model(t);
        assert(t.shape.len() == 2);
        assert(u.shape =~= m.shape);
        assert(m.data.len() == rows * cols);
        assert((cols as int) * (rows as int) == rows * cols) by (nonlinear_arith);
        assert forall|q: int| 0 <= q < rows * cols implies u.data[q] == m.data[q] by {
            lemma_cell_index_inverse(q, rows, cols);
            let i = q / cols;
            let j = q % cols;
            // position of (j, i) inside the transposed [cols, rows] matrix
            lemma_cell_index(i, j, rows, cols);
            lemma_cell_index(j, i, cols, rows);
            assert(u.data[q] == t.data[(q % cols) * rows + q / cols]);
            assert(t.data[j * rows + i] == m.data[((j * rows + i) % rows) * cols + (j * rows + i)
                / rows]);
            vstd::arithmetic::div_mod::lemma_fundamental_div_mod_converse_div(
                j * rows + i,
                rows,
                j,
                i,
            );
            vstd::arithmetic::div_mod::lemma_fundamental_div_mod_converse_mod(
                j * rows + i,
                rows,
                j,
                i,
            );
        }
        assert(u.data =~= m.data);
        assert(u =~= m);
    }
}

/// Whether two shape vectors hold the same entries.
pub(crate) fn shapes_equal(a: &Vec<usize>, b: &Vec<usize>) -> (r: bool)
    ensures
        r <==> a@ == b@,
{
    if a.len() != b.len() {
        proof {
            assert(a@.len() != b@.len());
        }
        return false;
    }
    let n = a.len();
    let mut i: usize = 0;
    while i < n
        invariant
            i <= n,
            n == a@.len(),
            b@.len() == n,
            forall|j: int| 0 <= j < i ==> a@[j] == b@[j],
        decreases n - i,
    {
        if a[i] != b[i] {
            return false;
        }
        i = i + 1;
    }
    proof {
        assert(a@ =~= b@);
    }
    true
}

/// An element-for-element copy of a shape vector.
pub(crate) fn clone_usize_vec(a: &Vec<usize>) -> (r: Vec<usize>)
    ensures
        r@ == a@,
{
    let mut out: Vec<usize> = Vec::new();
    let mut i: usize = 0;
    while i < a.len()
        invariant
            i <= a@.len(),
            out@ =~= a@.subrange(0, i as int),
        decreases a@.len() - i,
    {
        out.push(a[i]);
        i = i + 1;
    }
    proof {
        assert(out@ =~= a@);
    }
    out
}

// The reduction consistency law, over the exact integer scalar. Wrapping
// addition is addition modulo 2^64, so each fold is congruent to the exact
// integer sum of what it folds; the exact double sums over rows or columns
// rearrange into the flat sum, and two congruent 64-bit values are equal.

/// The modulus wrapping 64-bit arithmetic works in.
pub open spec fn wrap_modulus() -> int {
    0x1_0000_0000_0000_0000
}

/// Congruence modulo 2^64.
pub open spec fn cong(x: int, y: int) -> bool {
    (x - y) % wrap_modulus() == 0
}

/// The exact integer sum of the first `k` elements.
pub open spec fn int_seq_sum(d: Seq<IntScalar>, k: int) -> int
    decreases k,
{
    if k <= 0 {
        0
    } else {
        int_seq_sum(d, k - 1) + d[k - 1].0
    }
}

/// The exact integer sum of the first `k` terms of column `c`.
pub open spec fn int_col_sum(d: Seq<IntScalar>, cols: int, c: int, k: int) -> int
    decreases k,
{
    if k <= 0 {
        0
    } else {
        int_col_sum(d, cols, c, k - 1) + d[(k - 1) * cols + c].0
    }
}

/// The exact integer sum of the first `k` terms of row `r`.
pub open spec fn int_row_sum(d: Seq<IntScalar>, cols: int, r: int, k: int) -> int
    decreases k,
{
    if k <= 0 {
        0
    } else {
        int_row_sum(d, cols, r, k - 1) + d[r * cols + (k - 1)].0
    }
}

proof fn lemma_cong_trans(a: int, b: int, c: int)
    requires
        cong(a, b),
        cong(b, c),
    ensures
        cong(a, c),
{
    vstd::arithmetic::div_mod::lemma_add_mod_noop(a - b, b - c, wrap_modulus());
}

proof fn lemma_cong_add(a1: int, a2: int, b1: int, b2: int)
    requires
        cong(a1, b1),
        cong(a2, b2),
    ensures
        cong(a1 + a2, b1 + b2),
{
    vstd::arithmetic::div_mod::lemma_add_mod_noop(a1 - b1, a2 - b2, wrap_modulus());
}

/// Wrapping addition is congruent to exact addition.
proof fn lemma_wrap_add_cong(x: i64, y: i64)
    ensures
        cong(IntScalar::add_spec(IntScalar(x), IntScalar(y)).0 as int, x + y),
{
    let w = IntScalar::add_spec(IntScalar(x), IntScalar(y)).0 as int;
    vstd::arithmetic::div_mod::lemma_mod_multiples_basic(-1, wrap_modulus());
    vstd::arithmetic::div_mod::lemma_mod_multiples_basic(1, wrap_modulus());
    vstd::arithmetic::div_mod::lemma_mod_multiples_basic(0, wrap_modulus());
    assert(w - (x + y) == 0 || w - (x + y) == wrap_modulus() || w - (x + y) == -wrap_modulus());
}

/// Two congruent 64-bit values are equal: their difference is a multiple of
/// 2^64 with magnitude below 2^64.
proof fn lemma_cong_i64_eq(x: i64, y: i64)
    requires
        cong(x as int, y as int),
    ensures
        x == y,
{
    let m = wrap_modulus();
    if x >= y {
        vstd::arithmetic::div_mod::lemma_small_mod((x - y) as nat, m as nat);
    } else {
        let a = x - y;
        vstd::arithmetic::div_mod::lemma_fundamental_div_mod(a, m);
        vstd::arithmetic::div_mod::lemma_mod_multiples_basic(-(a / m), m);
        assert((y - x) % m == 0);
        vstd::arithmetic::div_mod::lemma_small_mod((y - x) as nat, m as nat);
    }
}

/// Folding with wrapping addition is congruent to the exact sum.
proof fn lemma_fold_cong(d: Seq<IntScalar>, k: int)
    ensures
        cong(fold_prefix(d, k).0 as int, int_seq_sum(d, k)),
    decreases k,
{
    if k <= 0 {
        assert(fold_prefix(d, k) == IntScalar(0));
    } else {
        lemma_fold_cong(d, k - 1);
        lemma_wrap_add_cong(fold_prefix(d, k - 1).0, d[k - 1].0);
        lemma_cong_add(fold_prefix(d, k - 1).0 as int, d[k - 1].0 as int, int_seq_sum(d, k - 1), d[k
            - 1].0 as int);
        lemma_cong_trans(
            fold_prefix(d, k).0 as int,
            fold_prefix(d, k - 1).0 as int + d[k - 1].0,
            int_seq_sum(d, k),
        );
    }
}

/// Folding a column with wrapping addition is congruent to its exact sum.
proof fn lemma_col_fold_cong(d: Seq<IntScalar>, cols: int, c: int, k: int)
    ensures
        cong(col_sum_prefix(d, cols, c, k).0 as int, int_col_sum(d, cols, c, k)),
    decreases k,
{
    if k <= 0 {
    } else {
        lemma_col_fold_cong(d, cols, c, k - 1);
        lemma_wrap_add_cong(col_sum_prefix(d, cols, c, k - 1).0, d[(k - 1) * cols + c].0);
        lemma_cong_add(
            col_sum_prefix(d, cols, c, k - 1).0 as int,
            d[(k - 1) * cols + c].0 as int,
            int_col_sum(d, cols, c, k - 1),
            d[(k - 1) * cols + c].0 as int,
        );
        lemma_cong_trans(
            col_sum_prefix(d, cols, c, k).0 as int,
            col_sum_prefix(d, cols, c, k - 1).0 as int + d[(k - 1) * cols + c].0,
            int_col_sum(d, cols, c, k),
        );
    }
}

/// Folding a row with wrapping addition is congruent to its exact sum.
proof fn lemma_row_fold_cong(d: Seq<IntScalar>, cols: int, r: int, k: int)
    ensures
        cong(row_sum_prefix(d, cols, r, k).0 as int, int_row_sum(d, cols, r, k)),
    decreases k,
{
    if k <= 0 {
    } else {
        lemma_row_fold_cong(d, cols, r, k - 1);
        lemma_wrap_add_cong(row_sum_prefix(d, cols, r, k - 1).0, d[r * cols + (k - 1)].0);
        lemma_cong_add(
            row_sum_prefix(d, cols, r, k - 1).0 as int,
            d[r * cols + (k - 1)].0 as int,
            int_row_sum(d, cols, r, k - 1),
            d[r * cols + (k - 1)].0 as int,
        );
        lemma_cong_trans(
            row_sum_prefix(d, cols, r, k).0 as int,
            row_sum_prefix(d, cols, r, k - 1).0 as int + d[r * cols + (k - 1)].0,
            int_row_sum(d, cols, r, k),
        );
    }
}

/// The flat sum up to `r * cols + k` splits into the flat sum of the first
/// `r` rows plus a partial row.
proof fn lemma_flat_row_decomp(d: Seq<IntScalar>, cols: int, r: int, k: int)
    requires
        0 <= k,
        0 <= r,
        0 <= cols,
    ensures
        int_seq_sum(d, r * cols + k) == int_seq_sum(d, r * cols) + int_row_sum(d, cols, r, k),
    decreases k,
{
    if k > 0 {
        lemma_flat_row_decomp(d, cols, r, k - 1);
    }
}

/// The exact sum of the first `k` exact row sums.
pub open spec fn int_rows_total(d: Seq<IntScalar>, cols: int, k: int) -> int
    decreases k,
{
    if k <= 0 {
        0
    } else {
        int_rows_total(d, cols, k - 1) + int_row_sum(d, cols, k - 1, cols)
    }
}

/// Row by row, the exact row totals add up to the flat sum.
proof fn lemma_rows_total_flat(d: Seq<IntScalar>, cols: int, k: int)
    requires
        0 <= cols,
        0 <= k,
    ensures
        int_rows_total(d, cols, k) == int_seq_sum(d, k * cols),
    decreases k,
{
    if k == 0 {
        assert(k * cols == 0) by (nonlinear_arith)
            requires
                k == 0,
        ;
    } else {
        lemma_rows_total_flat(d, cols, k - 1);
        lemma_flat_row_decomp(d, cols, k - 1, cols);
        assert(k * cols == (k - 1) * cols + cols) by (nonlinear_arith);
    }
}

/// The exact sum of the first `k` exact column sums, each over `rows` rows.
pub open spec fn int_cols_total(d: Seq<IntScalar>, rows: int, cols: int, k: int) -> int
    decreases k,
{
    if k <= 0 {
        0
    } else {
        int_cols_total(d, rows, cols, k - 1) + int_col_sum(d, cols, k - 1, rows)
    }
}

/// Growing every column sum by one row grows the column total by that row's
/// sum.
proof fn lemma_cols_total_step(d: Seq<IntScalar>, r: int, cols: int, k: int)
    requires
        0 <= r,
        0 <= k <= cols,
    ensures
        int_cols_total(d, r + 1, cols, k) == int_cols_total(d, r, cols, k) + int_row_sum(
            d,
            cols,
            r,
            k,
        ),
    decreases k,
{
    if k > 0 {
        lemma_cols_total_step(d, r, cols, k - 1);
        assert(int_col_sum(d, cols, k - 1, r + 1) == int_col_sum(d, cols, k - 1, r) + d[r * cols + (
        k - 1)].0);
        assert(int_row_sum(d, cols, r, k) == int_row_sum(d, cols, r, k - 1) + d[r * cols + (k
            - 1)].0);
    }
}

/// Column by column, the exact column totals add up to the flat sum.
proof fn lemma_cols_total_flat(d: Seq<IntScalar>, rows: int, cols: int)
    requires
        0 <= rows,
        0 <= cols,
    ensures
        int_cols_total(d, rows, cols, cols) == int_seq_sum(d, rows * cols),
    decreases rows,
{
    if rows == 0 {
        assert forall|k: int| 0 <= k <= cols implies int_cols_total(d, 0, cols, k) == 0 by {
            lemma_cols_total_zero(d, cols, k);
        }
        assert(0 * cols == 0) by (nonlinear_arith);
    } else {
        lemma_cols_total_flat(d, rows - 1, cols);
        lemma_cols_total_step(d, rows - 1, cols, cols);
        lemma_flat_row_decomp(d, cols, rows - 1, cols);
        assert(rows * cols == (rows - 1) * cols + cols) by (nonlinear_arith);
    }
}

/// Over zero rows, every column total is zero.
proof fn lemma_cols_total_zero(d: Seq<IntScalar>, cols: int, k: int)
    ensures
        int_cols_total(d, 0, cols, k) == 0,
    decreases k,
{
    if k > 0 {
        lemma_cols_total_zero(d, cols, k - 1);
    }
}

/// The exact sum of a sequence of fold results is congruent to the exact sum
/// of what each folds: here, of the column-sum sequence.
proof fn lemma_col_sums_seq_cong(d: Seq<IntScalar>, rows: int, cols: int, k: int)
    requires
        0 <= k <= cols,
    ensures
        cong(int_seq_sum(col_sums(d, rows, cols), k), int_cols_total(d, rows, cols, k)),
    decreases k,
{
    if k > 0 {
        lemma_col_sums_seq_cong(d, rows, cols, k - 1);
        lemma_col_fold_cong(d, cols, k - 1, rows);
        lemma_cong_add(
            int_seq_sum(col_sums(d, rows, cols), k - 1),
            col_sums(d, rows, cols)[k - 1].0 as int,
            int_cols_total(d, rows, cols, k - 1),
            int_col_sum(d, cols, k - 1, rows),
        );
    }
}

/// Likewise for the row-sum sequence.
proof fn lemma_row_sums_seq_cong(d: Seq<IntScalar>, rows: int, cols: int, k: int)
    requires
        0 <= k <= rows,
    ensures
        cong(int_seq_sum(row_sums(d, rows, cols), k), int_rows_total(d, cols, k)),
    decreases k,
{
    if k > 0 {
        lemma_row_sums_seq_cong(d, rows, cols, k - 1);
        lemma_row_fold_cong(d, cols, k - 1, cols);
        lemma_cong_add(
            int_seq_sum(row_sums(d, rows, cols), k - 1),
            row_sums(d, rows, cols)[k - 1].0 as int,
            int_rows_total(d, cols, k - 1),
            int_row_sum(d, cols, k - 1, cols),
        );
    }
}

/// Either axis reduction, totalled, gives the global sum: over the exact
/// integer scalar, the sum of an `[rows, cols]` matrix's column sums and the
/// sum of its row sums both equal the sum of all its elements. (An IEEE
/// float scalar satisfies this only approximately: float addition is not
/// associative, so the differently grouped sums can differ in the last
/// places.)
pub proof fn lemma_sum_axes_agree(d: Seq<IntScalar>, rows: int, cols: int)
    requires
        0 <= rows,
        0 <= cols,
        d.len() == rows * cols,
    ensures
        total_sum(col_sums(d, rows, cols)) == total_sum(d),
        total_sum(row_sums(d, rows, cols)) == total_sum(d),
{
    let m = wrap_modulus();
    // the flat fold is congruent to the exact flat sum
    lemma_fold_cong(d, rows * cols);
    // the fold of the column sums is congruent to the exact flat sum
    lemma_fold_cong(col_sums(d, rows, cols), cols);
    lemma_col_sums_seq_cong(d, rows, cols, cols);
    lemma_cols_total_flat(d, rows, cols);
    lemma_cong_trans(
        total_sum(col_sums(d, rows, cols)).0 as int,
        int_seq_sum(col_sums(d, rows, cols), cols),
        int_seq_sum(d, rows * cols),
    );
    lemma_cong_trans(
        total_sum(col_sums(d, rows, cols)).0 as int,
        int_seq_sum(d, rows * cols),
        total_sum(d).0 as int,
    );
    lemma_cong_i64_eq(total_sum(col_sums(d, rows, cols)).0, total_sum(d).0);
    // the fold of the row sums likewise
    lemma_fold_cong(row_sums(d, rows, cols), rows);
    lemma_row_sums_seq_cong(d, rows, cols, rows);
    lemma_rows_total_flat(d, cols, rows);
    lemma_cong_trans(
        total_sum(row_sums(d, rows, cols)).0 as int,
        int_seq_sum(row_sums(d, rows, cols), rows),
        int_seq_sum(d, rows * cols),
    );
    lemma_cong_trans(
        total_sum(row_sums(d, rows, cols)).0 as int,
        int_seq_sum(d, rows * cols),
        total_sum(d).0 as int,
    );
    lemma_cong_i64_eq(total_sum(row_sums(d, rows, cols)).0, total_sum(d).0);
}

} // verus!
