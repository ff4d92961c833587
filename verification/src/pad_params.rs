//! The parameter store of the PAD and the X.29 requests served from it.

use crate::x29::{X29PadMessage, X29PadMessageView};
use crate::x3::{X3Echo, X3Editing, X3Forward, X3Idle, X3LfInsert, X3ParamError, X3Params};
use vstd::prelude::*;

verus! {

pub const PARAM_ECHO: u8 = 2;

pub const PARAM_FORWARD: u8 = 3;

pub const PARAM_IDLE: u8 = 4;

pub const PARAM_LF_INSERT: u8 = 13;

pub const PARAM_EDITING: u8 = 15;

/// Whether `param` is one of the parameters the PAD keeps itself.
pub open spec fn is_pad_param(param: u8) -> bool {
    param == PARAM_ECHO || param == PARAM_FORWARD || param == PARAM_IDLE || param
        == PARAM_LF_INSERT || param == PARAM_EDITING
}

/// The parameters of the PAD, and a store to which every other parameter is
/// handed on.
#[derive(Debug)]
pub struct PadParams<Q: X3Params> {
    pub echo: X3Echo,
    pub forward: X3Forward,
    pub idle: X3Idle,
    pub lf_insert: X3LfInsert,
    pub editing: X3Editing,
    pub delegate: Option<Q>,
}

impl<Q: X3Params + Clone> Clone for PadParams<Q> {
    /// A copy with the same parameters of the PAD's own, and a clone of
    /// the delegate.
    fn clone(&self) -> (copy: Self)
        ensures
            copy.echo == self.echo,
            copy.forward == self.forward,
            copy.idle == self.idle,
            copy.lf_insert == self.lf_insert,
            copy.editing == self.editing,
            copy.delegate is Some <==> self.delegate is Some,
    {
        PadParams {
            echo: self.echo,
            forward: self.forward,
            idle: self.idle,
            lf_insert: self.lf_insert,
            editing: self.editing,
            delegate: match &self.delegate {
                Some(delegate) => Some(delegate.clone()),
                None => None,
            },
        }
    }
}

impl<Q: X3Params> PadParams<Q> {
    /// The PAD's own parameters with their values, in order.
    pub open spec fn spec_own(&self) -> Seq<(u8, u8)> {
        seq![
            (PARAM_ECHO, self.echo.spec_value()),
            (PARAM_FORWARD, self.forward.spec_value()),
            (PARAM_IDLE, self.idle.spec_value()),
            (PARAM_LF_INSERT, self.lf_insert.spec_value()),
            (PARAM_EDITING, self.editing.spec_value()),
        ]
    }

    /// The delegate's parameters, without those that the PAD's own hide.
    pub open spec fn spec_delegated(&self) -> Seq<(u8, u8)> {
        match self.delegate {
            Some(delegate) => delegate.spec_all().filter(|e: (u8, u8)| !is_pad_param(e.0)),
            None => Seq::empty(),
        }
    }

    /// Whether the terminal's input is echoed: echo is on, and editing does
    /// not suppress it.
    pub open spec fn spec_should_echo(&self, suppress_when_editing: bool) -> bool {
        self.echo.spec_value() == 1 && !(self.editing.spec_value() == 1 && suppress_when_editing)
    }

    pub fn should_echo_write(&self, suppress_when_editing: bool) -> (echo: bool)
        ensures
            echo == self.spec_should_echo(suppress_when_editing),
    {
        if !self.echo.is_enabled() {
            return false;
        }
        if self.editing.is_enabled() && suppress_when_editing {
            return false;
        }
        true
    }
}

impl<Q: X3Params> X3Params for PadParams<Q> {
    open spec fn spec_get(&self, param: u8) -> Option<u8> {
        if param == PARAM_ECHO {
            Some(self.echo.spec_value())
        } else if param == PARAM_FORWARD {
            Some(self.forward.spec_value())
        } else if param == PARAM_IDLE {
            Some(self.idle.spec_value())
        } else if param == PARAM_LF_INSERT {
            Some(self.lf_insert.spec_value())
        } else if param == PARAM_EDITING {
            Some(self.editing.spec_value())
        } else {
            match self.delegate {
                Some(delegate) => delegate.spec_get(param),
                None => None,
            }
        }
    }

    open spec fn spec_refusal(&self, param: u8, value: u8) -> Option<X3ParamError> {
        if param == PARAM_ECHO {
            if X3Echo::valid(value) {
                None
            } else {
                Some(X3ParamError::InvalidValue)
            }
        } else if param == PARAM_FORWARD {
            if X3Forward::valid(value) {
                None
            } else {
                Some(X3ParamError::InvalidValue)
            }
        } else if param == PARAM_IDLE {
            None
        } else if param == PARAM_LF_INSERT {
            if X3LfInsert::valid(value) {
                None
            } else {
                Some(X3ParamError::InvalidValue)
            }
        } else if param == PARAM_EDITING {
            if X3Editing::valid(value) {
                None
            } else {
                Some(X3ParamError::InvalidValue)
            }
        } else {
            match self.delegate {
                Some(delegate) => delegate.spec_refusal(param, value),
                None => Some(X3ParamError::Unsupported),
            }
        }
    }

    open spec fn spec_all(&self) -> Seq<(u8, u8)> {
        self.spec_own() + self.spec_delegated()
    }

    fn get(&self, param: u8) -> (value: Option<u8>) {
        if param == PARAM_ECHO {
            Some(self.echo.value())
        } else if param == PARAM_FORWARD {
            Some(self.forward.value())
        } else if param == PARAM_IDLE {
            Some(self.idle.value())
        } else if param == PARAM_LF_INSERT {
            Some(self.lf_insert.value())
        } else if param == PARAM_EDITING {
            Some(self.editing.value())
        } else {
            match &self.delegate {
                Some(delegate) => delegate.get(param),
                None => None,
            }
        }
    }

    fn set(&mut self, param: u8, value: u8) -> (result: Result<(), X3ParamError>) {
        if param == PARAM_ECHO {
            match X3Echo::new(value) {
                Ok(echo) => {
                    self.echo = echo;
                    Ok(())
                },
                Err(err) => Err(err),
            }
        } else if param == PARAM_FORWARD {
            match X3Forward::new(value) {
                Ok(forward) => {
                    self.forward = forward;
                    Ok(())
                },
                Err(err) => Err(err),
            }
        } else if param == PARAM_IDLE {
            self.idle = X3Idle::new(value);
            Ok(())
        } else if param == PARAM_LF_INSERT {
            match X3LfInsert::new(value) {
                Ok(lf_insert) => {
                    self.lf_insert = lf_insert;
                    Ok(())
                },
                Err(err) => Err(err),
            }
        } else if param == PARAM_EDITING {
            match X3Editing::new(value) {
                Ok(editing) => {
                    self.editing = editing;
                    Ok(())
                },
                Err(err) => Err(err),
            }
        } else {
            match &mut self.delegate {
                Some(delegate) => delegate.set(param, value),
                None => Err(X3ParamError::Unsupported),
            }
        }
    }

    fn all(&self) -> (list: Vec<(u8, u8)>) {
        let mut list: Vec<(u8, u8)> = Vec::new();
        list.push((PARAM_ECHO, self.echo.value()));
        list.push((PARAM_FORWARD, self.forward.value()));
        list.push((PARAM_IDLE, self.idle.value()));
        list.push((PARAM_LF_INSERT, self.lf_insert.value()));
        list.push((PARAM_EDITING, self.editing.value()));
        proof {
            assert(list@ =~= self.spec_own());
        }
        if let Some(delegate) = &self.delegate {
            let theirs = delegate.all();
            let ghost keep = |e: (u8, u8)| !is_pad_param(e.0);
            let mut i: usize = 0;
            proof {
                assert(theirs@.take(0).filter(keep) =~= Seq::empty()) by {
                    assert(theirs@.take(0) =~= Seq::empty());
                }
                assert(list@ =~= self.spec_own() + theirs@.take(0).filter(keep));
            }
            while i < theirs.len()
                invariant
                    i <= theirs.len(),
                    keep == |e: (u8, u8)| !is_pad_param(e.0),
                    list@ == self.spec_own() + theirs@.take(i as int).filter(keep),
                decreases theirs.len() - i,
            {
                let entry: (u8, u8) = theirs[i];
                proof {
                    assert(theirs@.take(i as int + 1) =~= theirs@.take(i as int).push(entry));
                    theirs@.take(i as int).lemma_filter_push(entry, keep);
                }
                let param: u8 = entry.0;
                if !(param == PARAM_ECHO || param == PARAM_FORWARD || param == PARAM_IDLE || param
                    == PARAM_LF_INSERT || param == PARAM_EDITING) {
                    list.push(entry);
                }
                proof {
                    assert(list@ =~= self.spec_own() + theirs@.take(i as int + 1).filter(keep));
                }
                i += 1;
            }
            proof {
                assert(theirs@.take(theirs.len() as int) =~= theirs@);
            }
        }
        list
    }
}

/// The entry that answers a request to read `param`.
pub open spec fn read_entry<Q: X3Params>(params: &Q, param: u8) -> (u8, Result<u8, X3ParamError>) {
    match params.spec_get(param) {
        Some(value) => (param, Ok(value)),
        None => (param, Err(X3ParamError::Unsupported)),
    }
}

/// The indication that answers a request to read: every parameter of the
/// store for an empty request, else one entry for each parameter asked for.
pub open spec fn spec_read_params<Q: X3Params>(params: &Q, request: Seq<u8>) -> Seq<
    (u8, Result<u8, X3ParamError>),
> {
    if request.len() == 0 {
        params.spec_all().map_values(|e: (u8, u8)| (e.0, Ok::<u8, X3ParamError>(e.1)))
    } else {
        request.map_values(|p: u8| read_entry(params, p))
    }
}

/// Answers a request to read parameters.
pub fn read_params<Q: X3Params>(params: &Q, request: &[u8]) -> (message: X29PadMessage)
    ensures
        message@ == X29PadMessageView::Indicate(spec_read_params(params, request@)),
{
    let mut response: Vec<(u8, Result<u8, X3ParamError>)> = Vec::new();
    if request.len() == 0 {
        let all = params.all();
        let ghost wanted = all@.map_values(|e: (u8, u8)| (e.0, Ok::<u8, X3ParamError>(e.1)));
        let mut i: usize = 0;
        while i < all.len()
            invariant
                i <= all.len(),
                wanted == all@.map_values(|e: (u8, u8)| (e.0, Ok::<u8, X3ParamError>(e.1))),
                response@ == wanted.take(i as int),
            decreases all.len() - i,
        {
            let (param, value) = all[i];
            response.push((param, Ok(value)));
            proof {
                assert(response@ =~= wanted.take(i as int + 1));
            }
            i += 1;
        }
        proof {
            assert(wanted.take(all.len() as int) =~= wanted);
        }
    } else {
        let ghost wanted = request@.map_values(|p: u8| read_entry(params, p));
        let mut i: usize = 0;
        while i < request.len()
            invariant
                i <= request.len(),
                wanted == request@.map_values(|p: u8| read_entry(params, p)),
                response@ == wanted.take(i as int),
            decreases request.len() - i,
        {
            let param: u8 = request[i];
            let entry: (u8, Result<u8, X3ParamError>) = match params.get(param) {
                Some(value) => (param, Ok(value)),
                None => (param, Err(X3ParamError::Unsupported)),
            };
            response.push(entry);
            proof {
                assert(response@ =~= wanted.take(i as int + 1));
            }
            i += 1;
        }
        proof {
            assert(wanted.take(request.len() as int) =~= wanted);
        }
    }
    X29PadMessage::Indicate(response)
}

/// The entries for the requests that a store refused, in order, when the
/// requests are applied one after the other.
pub open spec fn spec_set_failures<Q: X3Params>(params: &Q, request: Seq<(u8, u8)>) -> Seq<
    (u8, Result<u8, X3ParamError>),
> {
    request.filter(|r: (u8, u8)| params.spec_refusal(r.0, r.1) is Some).map_values(
        |r: (u8, u8)| (r.0, Err::<u8, X3ParamError>(params.spec_refusal(r.0, r.1)->0)),
    )
}

/// Whether `after` is `before` with the requests applied in order: each
/// request that is not refused sets its parameter.
pub open spec fn applied<Q: X3Params>(before: &Q, request: Seq<(u8, u8)>, after: &Q) -> bool {
    &&& forall|p: u8, v: u8| after.spec_refusal(p, v) == before.spec_refusal(p, v)
    &&& forall|p: u8| after.spec_get(p) == #[trigger] value_after(before, request, p)
}

/// The value of `param` after the requests were applied in order: that of
/// the last request for `param` that was not refused, or else the value
/// before.
pub open spec fn value_after<Q: X3Params>(before: &Q, request: Seq<(u8, u8)>, param: u8) -> Option<
    u8,
>
    decreases request.len(),
{
    if request.len() == 0 {
        before.spec_get(param)
    } else {
        let last = request.last();
        if last.0 == param && before.spec_refusal(last.0, last.1) is None {
            Some(last.1)
        } else {
            value_after(before, request.drop_last(), param)
        }
    }
}

/// Applies a request to set parameters, each in order. Answers with an
/// indication of the requests that were refused, or with nothing when none
/// was. An empty request is rejected as an invalid value.
pub fn set_params<Q: X3Params>(params: &mut Q, request: &[(u8, u8)]) -> (result: Result<
    Option<X29PadMessage>,
    X3ParamError,
>)
    ensures
        request@.len() == 0 ==> result == Err::<Option<X29PadMessage>, X3ParamError>(
            X3ParamError::InvalidValue,
        ) && *final(params) == *old(params),
        request@.len() > 0 ==> {
            &&& result is Ok
            &&& applied(old(params), request@, final(params))
            &&& match result->Ok_0 {
                Some(message) => {
                    &&& spec_set_failures(old(params), request@).len() > 0
                    &&& message@ == X29PadMessageView::Indicate(
                        spec_set_failures(old(params), request@),
                    )
                },
                None => spec_set_failures(old(params), request@).len() == 0,
            }
        },
{
    if request.len() == 0 {
        return Err(X3ParamError::InvalidValue);
    }
    let ghost refused = |r: (u8, u8)| old(params).spec_refusal(r.0, r.1) is Some;
    let ghost entry = |r: (u8, u8)|
        (r.0, Err::<u8, X3ParamError>(old(params).spec_refusal(r.0, r.1)->0));
    let mut response: Vec<(u8, Result<u8, X3ParamError>)> = Vec::new();
    let mut i: usize = 0;
    proof {
        assert(request@.take(0) =~= Seq::empty());
        assert(request@.take(0).filter(refused) =~= Seq::empty());
        assert(response@ =~= request@.take(0).filter(refused).map_values(entry));
    }
    while i < request.len()
        invariant
            i <= request.len(),
            refused == |r: (u8, u8)| old(params).spec_refusal(r.0, r.1) is Some,
            entry == |r: (u8, u8)|
                (r.0, Err::<u8, X3ParamError>(old(params).spec_refusal(r.0, r.1)->0)),
            applied(old(params), request@.take(i as int), params),
            response@ == request@.take(i as int).filter(refused).map_values(entry),
        decreases request.len() - i,
    {
        let (param, value) = request[i];
        let ghost before = *params;
        let ghost done = request@.take(i as int);
        proof {
            assert(request@.take(i as int + 1) =~= done.push((param, value)));
            assert(done.push((param, value)).drop_last() =~= done);
            done.lemma_filter_push((param, value), refused);
        }
        match params.set(param, value) {
            Ok(_) => {
                proof {
                    assert forall|p: u8| params.spec_get(p) == #[trigger] value_after(
                        old(params),
                        request@.take(i as int + 1),
                        p,
                    ) by {
                        assert(before.spec_get(p) == value_after(old(params), done, p));
                    }
                }
            },
            Err(err) => {
                response.push((param, Err(err)));
                proof {
                    assert forall|p: u8| params.spec_get(p) == #[trigger] value_after(
                        old(params),
                        request@.take(i as int + 1),
                        p,
                    ) by {
                        assert(before.spec_get(p) == value_after(old(params), done, p));
                    }
                }
            },
        }
        proof {
            assert(response@ =~= request@.take(i as int + 1).filter(refused).map_values(entry));
        }
        i += 1;
    }
    proof {
        assert(request@.take(request.len() as int) =~= request@);
    }
    if response.len() == 0 {
        Ok(None)
    } else {
        Ok(Some(X29PadMessage::Indicate(response)))
    }
}

/// The entry that answers the request at `index` of a request to set and
/// read: the error for a refused request, else the value the parameter has
/// once the requests up to that one were applied.
pub open spec fn set_read_entry<Q: X3Params>(before: &Q, request: Seq<(u8, u8)>, index: int) -> (
    u8,
    Result<u8, X3ParamError>,
) {
    let r = request[index];
    match before.spec_refusal(r.0, r.1) {
        Some(err) => (r.0, Err(err)),
        None => (r.0, Ok(r.1)),
    }
}

/// Applies a request to set parameters, each in order, and answers with an
/// indication of every one: its value now, or why it was refused. An empty
/// request is rejected as an invalid value.
pub fn set_read_params<Q: X3Params>(params: &mut Q, request: &[(u8, u8)]) -> (result: Result<
    X29PadMessage,
    X3ParamError,
>)
    ensures
        request@.len() == 0 ==> result == Err::<X29PadMessage, X3ParamError>(
            X3ParamError::InvalidValue,
        ) && *final(params) == *old(params),
        request@.len() > 0 ==> {
            &&& result is Ok
            &&& applied(old(params), request@, final(params))
            &&& result->Ok_0@ == X29PadMessageView::Indicate(
                Seq::new(request@.len(), |i: int| set_read_entry(old(params), request@, i)),
            )
        },
{
    if request.len() == 0 {
        return Err(X3ParamError::InvalidValue);
    }
    let ghost wanted = Seq::new(
        request@.len(),
        |i: int| set_read_entry(old(params), request@, i),
    );
    let mut response: Vec<(u8, Result<u8, X3ParamError>)> = Vec::new();
    let mut i: usize = 0;
    proof {
        assert(request@.take(0) =~= Seq::empty());
    }
    while i < request.len()
        invariant
            i <= request.len(),
            wanted == Seq::new(request@.len(), |i: int| set_read_entry(old(params), request@, i)),
            applied(old(params), request@.take(i as int), params),
            response@ == wanted.take(i as int),
        decreases request.len() - i,
    {
        let (param, value) = request[i];
        let ghost before = *params;
        let ghost done = request@.take(i as int);
        proof {
            assert(request@.take(i as int + 1) =~= done.push((param, value)));
            assert(done.push((param, value)).drop_last() =~= done);
        }
        let entry: (u8, Result<u8, X3ParamError>) = match params.set(param, value) {
            Ok(_) => {
                match params.get(param) {
                    Some(now) => (param, Ok(now)),
                    None => (param, Err(X3ParamError::Unsupported)),
                }
            },
            Err(err) => (param, Err(err)),
        };
        proof {
            assert forall|p: u8| params.spec_get(p) == #[trigger] value_after(
                old(params),
                request@.take(i as int + 1),
                p,
            ) by {
                assert(before.spec_get(p) == value_after(old(params), done, p));
            }
            assert(entry == wanted[i as int]);
        }
        response.push(entry);
        proof {
            assert(response@ =~= wanted.take(i as int + 1));
        }
        i += 1;
    }
    proof {
        assert(request@.take(request.len() as int) =~= request@);
        assert(wanted.take(request.len() as int) =~= wanted);
    }
    Ok(X29PadMessage::Indicate(response))
}

} // verus!
