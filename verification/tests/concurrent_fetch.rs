use debug_session::error::ProtocolError;
use debug_session::thread::Variable;
use debug_session::variables::{VariableFetch, VariableRequest};
use futures::executor::block_on;
use futures::stream::{FuturesUnordered, StreamExt};
use std::cell::Cell;
use std::future::Future;
use std::pin::Pin;
use std::task::{Context, Poll};

fn var(name: &str, reference: u64) -> Variable {
    Variable { name: name.to_string(), value: String::new(), variables_reference: reference }
}

/// An adapter that answers from a table, takes two polls for each answer,
/// and counts the requests that are under way.
struct FakeAdapter {
    in_flight: Cell<usize>,
    most_in_flight: Cell<usize>,
    fail_on: Option<u64>,
}

struct Exchange<'a> {
    adapter: &'a FakeAdapter,
    request: VariableRequest,
    begun: bool,
}

impl Future for Exchange<'_> {
    type Output = (usize, Result<Vec<Variable>, ProtocolError>);

    fn poll(mut self: Pin<&mut Self>, cx: &mut Context<'_>) -> Poll<Self::Output> {
        let adapter = self.adapter;
        if !self.begun {
            self.begun = true;
            adapter.in_flight.set(adapter.in_flight.get() + 1);
            adapter.most_in_flight.set(adapter.most_in_flight.get().max(adapter.in_flight.get()));
            cx.waker().wake_by_ref();
            return Poll::Pending;
        }
        adapter.in_flight.set(adapter.in_flight.get() - 1);
        let reference = self.request.variables_reference;
        let answer = if adapter.fail_on == Some(reference) {
            Err(ProtocolError::RequestFailed)
        } else {
            Ok(match reference {
                1 => vec![var("left", 10), var("right", 20)],
                10 => vec![var("left.a", 0), var("left.b", 0)],
                20 => vec![var("right.a", 0)],
                _ => vec![],
            })
        };
        Poll::Ready((self.request.token, answer))
    }
}

fn run(adapter: &FakeAdapter) -> Result<Vec<(usize, Variable)>, ProtocolError> {
    block_on(async {
        let (mut fetch, first) = VariableFetch::start(1, 1);
        let mut in_flight = FuturesUnordered::new();
        in_flight.push(Exchange { adapter, request: first, begun: false });
        while let Some((token, answer)) = in_flight.next().await {
            match answer {
                Ok(variables) => {
                    for request in fetch.on_response(token, variables) {
                        in_flight.push(Exchange { adapter, request, begun: false });
                    }
                }
                Err(error) => fetch.on_failure(error),
            }
        }
        fetch.finish()
    })
}

#[test]
fn sibling_subtrees_are_fetched_side_by_side() {
    let adapter =
        FakeAdapter { in_flight: Cell::new(0), most_in_flight: Cell::new(0), fail_on: None };
    let entries = run(&adapter).unwrap();
    assert_eq!(adapter.most_in_flight.get(), 2);
    assert_eq!(adapter.in_flight.get(), 0);
    assert_eq!(
        entries,
        vec![
            (1, var("left", 10)),
            (2, var("left.a", 0)),
            (2, var("left.b", 0)),
            (1, var("right", 20)),
            (2, var("right.a", 0)),
        ]
    );
}

#[test]
fn failure_of_one_branch_gives_no_partial_result() {
    let adapter =
        FakeAdapter { in_flight: Cell::new(0), most_in_flight: Cell::new(0), fail_on: Some(20) };
    assert_eq!(run(&adapter), Err(ProtocolError::RequestFailed));
}
