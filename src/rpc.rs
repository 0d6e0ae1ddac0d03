use vstd::prelude::*;

verus! {

/// A value carried in request parameters or in a response.
pub enum ParamsValue {
    Int(u64),
    String(String),
    List(Vec<ParamsValue>),
    Object(Vec<(String, ParamsValue)>),
}

/// An ordered mapping from string keys to values; each key occurs once.
pub struct JsonRpcParams {
    pub entries: Vec<(String, ParamsValue)>,
}

/// The key `k` is at position `i`, and at no earlier one.
pub open spec fn key_at(s: Seq<(String, ParamsValue)>, k: Seq<char>, i: int) -> bool {
    0 <= i < s.len() && s[i].0@ == k && forall|j: int| 0 <= j < i ==> s[j].0@ != k
}

pub open spec fn key_absent(s: Seq<(String, ParamsValue)>, k: Seq<char>) -> bool {
    forall|j: int| 0 <= j < s.len() ==> s[j].0@ != k
}

/// Position of the first entry under `k`, if any.
pub fn find_key(s: &Vec<(String, ParamsValue)>, k: &str) -> (r: Option<usize>)
    ensures
        r is None <==> key_absent(s@, k@),
        r is Some ==> key_at(s@, k@, r->Some_0 as int),
{
    let key = k.to_owned();
    let mut i: usize = 0;
    while i < s.len()
        invariant
            key@ == k@,
            i <= s@.len(),
            forall|j: int| 0 <= j < i ==> s@[j].0@ != k@,
        decreases s@.len() - i,
    {
        if s[i].0 == key {
            return Some(i);
        }
        i = i + 1;
    }
    None
}

/// A key has one first position.
pub proof fn lemma_key_at_unique(s: Seq<(String, ParamsValue)>, k: Seq<char>, i: int)
    requires
        key_at(s, k, i),
    ensures
        forall|j: int| key_at(s, k, j) ==> j == i,
{
    assert forall|j: int| key_at(s, k, j) implies j == i by {
        if j < i {
        } else if j > i {
        }
    }
}

impl JsonRpcParams {
    /// No key occurs twice.
    pub open spec fn wf(&self) -> bool {
        forall|i: int, j: int|
            0 <= i < j < self.entries@.len() ==> (#[trigger] self.entries@[i]).0@ != (
            #[trigger] self.entries@[j]).0@
    }

    /// The value stored under `k`, if any.
    pub open spec fn lookup(&self, k: Seq<char>) -> Option<ParamsValue> {
        if exists|i: int| key_at(self.entries@, k, i) {
            let i = choose|i: int| key_at(self.entries@, k, i);
            Some(self.entries@[i].1)
        } else {
            None
        }
    }

    pub fn new() -> (r: Self)
        ensures
            r.entries@.len() == 0,
            r.wf(),
    {
        JsonRpcParams { entries: Vec::new() }
    }

    /// Stores `value` under `key`: an existing entry keeps its place and takes
    /// the new value, a new key goes last.
    pub fn insert(self, key: &str, value: ParamsValue) -> (r: Self)
        ensures
            key_absent(self.entries@, key@) ==> r.entries@.len() == self.entries@.len() + 1
                && r.entries@.drop_last() == self.entries@ && r.entries@.last().0@ == key@
                && r.entries@.last().1 == value,
            self.wf() ==> r.wf(),
            forall|i: int|
                key_at(self.entries@, key@, i) ==> r.entries@ == self.entries@.update(
                    i,
                    (self.entries@[i].0, value),
                ),
    {
        let mut entries = self.entries;
        match find_key(&entries, key) {
            Some(i) => {
                let old_key = entries[i].0.clone();
                entries.set(i, (old_key, value));
                proof {
                    lemma_key_at_unique(self.entries@, key@, i as int);
                }
            },
            None => {
                entries.push((key.to_owned(), value));
            },
        }
        JsonRpcParams { entries }
    }

    /// The value stored under `key`, if any.
    pub fn get(&self, key: &str) -> (r: Option<&ParamsValue>)
        ensures
            r matches Some(v) ==> self.lookup(key@) == Some(*v),
            r is None ==> self.lookup(key@) is None,
    {
        match find_key(&self.entries, key) {
            Some(i) => {
                proof {
                    lemma_key_at_unique(self.entries@, key@, i as int);
                }
                Some(&self.entries[i].1)
            },
            None => None,
        }
    }
}

/// `b` holds the same value as `a`: same variant, same numbers and texts,
/// same keys in the same order, all the way down.
pub open spec fn same_value(a: ParamsValue, b: ParamsValue) -> bool
    decreases a,
{
    match a {
        ParamsValue::Int(x) => b == ParamsValue::Int(x),
        ParamsValue::String(x) => b is String && b->String_0@ == x@,
        ParamsValue::List(xs) => b is List && b->List_0@.len() == xs@.len() && forall|i: int|
            0 <= i < xs@.len() ==> same_value(#[trigger] xs[i], b->List_0[i]),
        ParamsValue::Object(xs) => b is Object && b->Object_0@.len() == xs@.len() && forall|i: int|
            0 <= i < xs@.len() ==> (#[trigger] xs[i]).0@ == b->Object_0[i].0@ && same_value(
                xs[i].1,
                b->Object_0[i].1,
            ),
    }
}

/// Two entry lists with the same keys in the same order and the same values.
pub open spec fn same_entries(a: Seq<(String, ParamsValue)>, b: Seq<(String, ParamsValue)>) -> bool {
    a.len() == b.len() && forall|i: int|
        0 <= i < a.len() ==> (#[trigger] a[i]).0@ == b[i].0@ && same_value(a[i].1, b[i].1)
}

/// Every value holds the same value as itself.
pub proof fn lemma_same_value_refl(a: ParamsValue)
    ensures
        same_value(a, a),
    decreases a,
{
    match a {
        ParamsValue::List(xs) => {
            assert forall|i: int| 0 <= i < xs@.len() implies same_value(#[trigger] xs[i], xs[i]) by {
                lemma_same_value_refl(xs[i]);
            }
        },
        ParamsValue::Object(xs) => {
            assert forall|i: int| 0 <= i < xs@.len() implies same_value(
                (#[trigger] xs[i]).1,
                xs[i].1,
            ) by {
                lemma_same_value_refl(xs[i].1);
            }
        },
        _ => {},
    }
}

/// The entries of a request body: those of `params`, with the entry under
/// `"id"` set to `id`; appended last when `params` has no such key.
pub open spec fn is_request_body(
    body: Seq<(String, ParamsValue)>,
    params: Seq<(String, ParamsValue)>,
    id: u64,
) -> bool {
    if key_absent(params, "id"@) {
        &&& body.len() == params.len() + 1
        &&& body.last().0@ == "id"@
        &&& body.last().1 == ParamsValue::Int(id)
        &&& forall|j: int|
            0 <= j < params.len() ==> (#[trigger] body[j]).0@ == params[j].0@ && same_value(
                params[j].1,
                body[j].1,
            )
    } else {
        &&& body.len() == params.len()
        &&& forall|j: int|
            0 <= j < params.len() ==> (#[trigger] body[j]).0@ == params[j].0@ && if key_at(
                params,
                "id"@,
                j,
            ) {
                body[j].1 == ParamsValue::Int(id)
            } else {
                same_value(params[j].1, body[j].1)
            }
    }
}

impl ParamsValue {
    /// A copy that holds the same value.
    pub fn deep_copy(&self) -> (r: Self)
        ensures
            same_value(*self, r),
        decreases self,
    {
        match self {
            ParamsValue::Int(n) => ParamsValue::Int(*n),
            ParamsValue::String(t) => ParamsValue::String(t.clone()),
            ParamsValue::List(xs) => {
                let mut out: Vec<ParamsValue> = Vec::new();
                let mut i: usize = 0;
                while i < xs.len()
                    invariant
                        *self == ParamsValue::List(*xs),
                        i <= xs@.len(),
                        out@.len() == i,
                        forall|j: int| 0 <= j < i ==> same_value(#[trigger] xs[j], out[j]),
                    decreases xs@.len() - i,
                {
                    proof {
                        vstd::std_specs::vec::axiom_vec_index_decreases(*xs, i as int);
                        let ghost v = *self;
                        assert(decreases_to!(v => v->List_0));
                        assert(decreases_to!(v => xs[i as int]));
                    }
                    out.push(xs[i].deep_copy());
                    i = i + 1;
                }
                ParamsValue::List(out)
            },
            ParamsValue::Object(xs) => ParamsValue::Object(copy_entries(xs)),
        }
    }
}

/// A copy of an entry list that holds the same keys and values.
pub fn copy_entries(xs: &Vec<(String, ParamsValue)>) -> (r: Vec<(String, ParamsValue)>)
    ensures
        same_entries(xs@, r@),
    decreases xs,
{
    let mut out: Vec<(String, ParamsValue)> = Vec::new();
    let mut i: usize = 0;
    while i < xs.len()
        invariant
            i <= xs@.len(),
            out@.len() == i,
            forall|j: int|
                0 <= j < i ==> (#[trigger] xs[j]).0@ == out[j].0@ && same_value(xs[j].1, out[j].1),
        decreases xs@.len() - i,
    {
        proof {
            vstd::std_specs::vec::axiom_vec_index_decreases(*xs, i as int);
        }
        out.push((xs[i].0.clone(), xs[i].1.deep_copy()));
        i = i + 1;
    }
    out
}

impl JsonRpcParams {
    /// A copy with the same keys and values.
    pub fn deep_copy(&self) -> (r: Self)
        ensures
            same_entries(self.entries@, r.entries@),
            self.wf() ==> r.wf(),
    {
        let r = JsonRpcParams { entries: copy_entries(&self.entries) };
        proof {
            if self.wf() {
                assert forall|i: int, j: int|
                    0 <= i < j < r.entries@.len() implies (#[trigger] r.entries@[i]).0@ != (
                    #[trigger] r.entries@[j]).0@ by {
                    assert(self.entries@[i].0@ == r.entries@[i].0@);
                    assert(self.entries@[j].0@ == r.entries@[j].0@);
                }
            }
        }
        r
    }

    /// These params as the body of the request with `id`.
    pub fn with_id(self, id: u64) -> (r: Self)
        ensures
            is_request_body(r.entries@, self.entries@, id),
            self.wf() ==> r.wf(),
    {
        let ghost before = self.entries@;
        let r = self.insert("id", ParamsValue::Int(id));
        proof {
            assert forall|j: int| 0 <= j < before.len() implies same_value(
                before[j].1,
                (#[trigger] before[j]).1,
            ) by {
                lemma_same_value_refl(before[j].1);
            }
            lemma_body_from_insert(before, before, r.entries@, id);
        }
        r
    }
}

/// The body of the request with `id` that carries a copy of `params`.
pub fn request_body(params: &JsonRpcParams, id: u64) -> (r: JsonRpcParams)
    ensures
        is_request_body(r.entries@, params.entries@, id),
        params.wf() ==> r.wf(),
{
    let copy = params.deep_copy();
    let ghost c = copy.entries@;
    let r = copy.insert("id", ParamsValue::Int(id));
    proof {
        lemma_body_from_insert(params.entries@, c, r.entries@, id);
    }
    r
}

/// Setting `"id"` in a copy of `params` gives a request body for `params`.
proof fn lemma_body_from_insert(
    params: Seq<(String, ParamsValue)>,
    copy: Seq<(String, ParamsValue)>,
    body: Seq<(String, ParamsValue)>,
    id: u64,
)
    requires
        same_entries(params, copy),
        key_absent(copy, "id"@) ==> body.len() == copy.len() + 1 && body.drop_last() == copy
            && body.last().0@ == "id"@ && body.last().1 == ParamsValue::Int(id),
        forall|i: int|
            key_at(copy, "id"@, i) ==> body == copy.update(i, (copy[i].0, ParamsValue::Int(id))),
    ensures
        is_request_body(body, params, id),
{
    assert(key_absent(params, "id"@) == key_absent(copy, "id"@)) by {
        assert forall|j: int| 0 <= j < params.len() implies params[j].0@ == (#[trigger] copy[j]).0@ by {
            assert(params[j].0@ == copy[j].0@);
        }
    }
    assert forall|j: int| key_at(params, "id"@, j) == key_at(copy, "id"@, j) by {
        if 0 <= j < params.len() {
            assert(params[j].0@ == copy[j].0@);
            assert forall|k: int| 0 <= k < j implies params[k].0@ == (#[trigger] copy[k]).0@ by {
                assert(params[k].0@ == copy[k].0@);
            }
        }
    }
    if key_absent(params, "id"@) {
        assert forall|j: int| 0 <= j < params.len() implies (#[trigger] body[j]).0@ == params[j].0@
            && same_value(params[j].1, body[j].1) by {
            assert(body[j] == body.drop_last()[j]);
            assert(params[j].0@ == copy[j].0@);
        }
    } else {
        let k = choose|k: int| 0 <= k < params.len() && params[k].0@ == "id"@;
        let first = choose|i: int| key_at(copy, "id"@, i);
        assert(exists|i: int| key_at(copy, "id"@, i)) by {
            lemma_first_key(copy, "id"@, k);
        }
        assert forall|j: int| 0 <= j < params.len() implies (#[trigger] body[j]).0@ == params[j].0@
            && if key_at(params, "id"@, j) {
            body[j].1 == ParamsValue::Int(id)
        } else {
            same_value(params[j].1, body[j].1)
        } by {
            assert(params[j].0@ == copy[j].0@);
            if key_at(params, "id"@, j) {
            } else {
                assert(j != first) by {
                    if j == first {
                        assert(key_at(params, "id"@, j));
                    }
                }
            }
        }
    }
}

/// A key that occurs somewhere has a first position.
pub proof fn lemma_first_key(s: Seq<(String, ParamsValue)>, k: Seq<char>, i: int)
    requires
        0 <= i < s.len(),
        s[i].0@ == k,
    ensures
        exists|j: int| key_at(s, k, j),
    decreases i,
{
    if forall|j: int| 0 <= j < i ==> s[j].0@ != k {
        assert(key_at(s, k, i));
    } else {
        let j = choose|j: int| 0 <= j < i && s[j].0@ != k == false;
        lemma_first_key(s, k, j);
    }
}

/// The error object of a JSON-RPC response.
pub struct RpcError {
    pub code: i64,
    pub message: String,
}

/// What a successful JSON-RPC response carries.
pub enum ResponseValue {
    Single(ParamsValue),
    Object(JsonRpcParams),
}

/// A JSON-RPC response: exactly one of a result and an error.
pub enum ResponseBody {
    Result(ResponseValue),
    Error(RpcError),
}

pub struct JsonRpcResponse {
    pub id: u64,
    pub body: ResponseBody,
}

impl JsonRpcResponse {
    /// The result, when the response carries one.
    pub fn result(&self) -> (r: Option<&ResponseValue>)
        ensures
            r matches Some(v) ==> self.body == ResponseBody::Result(*v),
            r is None ==> self.body is Error,
    {
        match &self.body {
            ResponseBody::Result(v) => Some(v),
            ResponseBody::Error(_) => None,
        }
    }
}

/// Why a batch of requests failed as a whole.
pub enum DispatchError {
    /// A request could not be sent or its response could not be read.
    Transport,
    /// A response body was not a JSON-RPC response.
    Decode,
}

/// Every outcome in the batch succeeded.
pub open spec fn all_ok(results: Seq<Result<JsonRpcResponse, DispatchError>>) -> bool {
    forall|i: int| 0 <= i < results.len() ==> (#[trigger] results[i]) is Ok
}

/// The responses of a batch in which every outcome succeeded, in input order.
pub open spec fn oks(results: Seq<Result<JsonRpcResponse, DispatchError>>) -> Seq<JsonRpcResponse> {
    Seq::new(results.len(), |i: int| results[i]->Ok_0)
}

/// Position `k` holds the first failure of the batch.
pub open spec fn first_failure(results: Seq<Result<JsonRpcResponse, DispatchError>>, k: int) -> bool {
    0 <= k < results.len() && results[k] is Err && forall|j: int| 0 <= j < k ==> (
    #[trigger] results[j]) is Ok
}

/// Joins the outcomes of one batch: all of them succeed, and the responses
/// come back in input order; or the batch fails with its first failure.
pub fn gather_responses(results: Vec<Result<JsonRpcResponse, DispatchError>>) -> (r: Result<
    Vec<JsonRpcResponse>,
    DispatchError,
>)
    ensures
        r is Ok <==> all_ok(results@),
        r matches Ok(v) ==> v@ == oks(results@),
        r matches Err(e) ==> exists|k: int|
            first_failure(results@, k) && results@[k] == Err::<JsonRpcResponse, _>(e),
{
    let ghost all = results@;
    let n = results.len();
    let mut out: Vec<JsonRpcResponse> = Vec::new();
    let mut rest = results;
    let mut i: usize = 0;
    while rest.len() > 0
        invariant
            i + rest@.len() == all.len(),
            all.len() == n,
            all == results@,
            rest@ == all.subrange(i as int, all.len() as int),
            forall|j: int| 0 <= j < i ==> (#[trigger] all[j]) is Ok,
            out@ == oks(all.subrange(0, i as int)),
        decreases rest@.len(),
    {
        let item = rest.remove(0);
        assert(item == all[i as int]);
        match item {
            Ok(resp) => {
                out.push(resp);
                assert(out@ =~= oks(all.subrange(0, i + 1)));
                i = i + 1;
                assert(rest@ =~= all.subrange(i as int, all.len() as int));
            },
            Err(e) => {
                assert(all[i as int] == Err::<JsonRpcResponse, DispatchError>(e));
                assert(first_failure(all, i as int));
                assert(!all_ok(all));
                return Err(e);
            },
        }
    }
    assert(all.subrange(0, i as int) =~= all);
    Ok(out)
}

} // verus!
