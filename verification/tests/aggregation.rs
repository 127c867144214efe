use std::collections::VecDeque;
use std::ops::ControlFlow;

use voyager_core::queue_msg::aggregation::{
    do_aggregate, match_data, pluck, HListTryFromIterator, Kinded, UseAggregate, Variant,
};
use voyager_core::block_message::scroll::{ChannelData, ConnectionData, ScrollData};
use voyager_core::block_message::{BlockPollingTypes, Data, DataKind};
use voyager_core::data::{ChannelEnd, ConnectionEnd, HandshakeState};
use voyager_core::events::Order;
use voyager_core::queue_msg::QueueMsg;
use voyager_core::relay_message::Identified;

#[derive(Debug, Clone, PartialEq)]
struct B;

#[derive(Debug, Clone, PartialEq)]
struct C;

#[derive(Debug, Clone, PartialEq)]
struct D;

#[derive(Debug, Clone, PartialEq)]
enum A {
    B(B),
    C(C),
    D(D),
}

#[derive(Debug, Clone, Copy, PartialEq)]
enum Tag {
    B,
    C,
    D,
}

impl Kinded for A {
    type Kind = Tag;

    fn kind_of(&self) -> Tag {
        match self {
            A::B(_) => Tag::B,
            A::C(_) => Tag::C,
            A::D(_) => Tag::D,
        }
    }

    fn is_kind(&self, kind: &Tag) -> bool {
        self.kind_of() == *kind
    }
}

impl Variant<A> for B {
    fn kind() -> Tag {
        Tag::B
    }

    fn item(self) -> A {
        A::B(self)
    }

    fn lemma_of_item(self) {}

    fn of_item(item: A) -> B {
        match item {
            A::B(b) => b,
            _ => unreachable!(),
        }
    }

    fn kind_tag() -> Tag {
        Tag::B
    }

    fn try_from_item(item: A) -> Result<B, A> {
        match item {
            A::B(b) => Ok(b),
            other => Err(other),
        }
    }
}

impl Variant<A> for C {
    fn kind() -> Tag {
        Tag::C
    }

    fn item(self) -> A {
        A::C(self)
    }

    fn lemma_of_item(self) {}

    fn of_item(item: A) -> C {
        match item {
            A::C(c) => c,
            _ => unreachable!(),
        }
    }

    fn kind_tag() -> Tag {
        Tag::C
    }

    fn try_from_item(item: A) -> Result<C, A> {
        match item {
            A::C(c) => Ok(c),
            other => Err(other),
        }
    }
}

#[test]
fn hlist_try_from_iter() {
    // correct items, correct order
    assert_eq!(
        <(B, (C, ()))>::try_from_iter(VecDeque::from_iter([A::B(B), A::C(C)])),
        Ok(((B, (C, ())), VecDeque::new()))
    );

    // correct items, wrong order
    assert_eq!(
        <(B, (C, ()))>::try_from_iter(VecDeque::from_iter([A::C(C), A::B(B)])),
        Ok(((B, (C, ())), VecDeque::new()))
    );

    // extra items: the list is bound, and the extra items are handed back
    assert_eq!(
        <(B, (C, ()))>::try_from_iter(VecDeque::from_iter([A::C(C), A::B(B), A::D(D)])),
        Ok(((B, (C, ())), VecDeque::from_iter([A::D(D)])))
    );

    // missing items
    assert_eq!(
        <(B, (C, ()))>::try_from_iter(VecDeque::from_iter([A::C(C)])),
        Err(VecDeque::from_iter([A::C(C)]))
    );

    // missing items, extra items present
    assert_eq!(
        <(B, (C, ()))>::try_from_iter(VecDeque::from_iter([A::C(C), A::D(D)])),
        Err(VecDeque::from_iter([A::C(C), A::D(D)]))
    );
}

#[test]
fn match_data_by_kinds() {
    let expected = vec![Tag::B, Tag::C];
    assert_eq!(
        match_data(&expected, VecDeque::from_iter([A::C(C), A::B(B)])),
        Ok((VecDeque::from_iter([A::B(B), A::C(C)]), VecDeque::new()))
    );
    assert_eq!(
        match_data(&expected, VecDeque::from_iter([A::C(C), A::B(B), A::D(D)])),
        Ok((VecDeque::from_iter([A::B(B), A::C(C)]), VecDeque::from_iter([A::D(D)])))
    );
    assert_eq!(
        match_data(&expected, VecDeque::from_iter([A::B(B), A::D(D)])),
        Err(VecDeque::from_iter([A::B(B), A::D(D)]))
    );
    assert_eq!(
        match_data::<A>(&vec![], VecDeque::new()),
        Ok((VecDeque::new(), VecDeque::new()))
    );
}

#[test]
fn a_typed_list_keeps_the_pool_when_a_later_kind_is_missing() {
    assert_eq!(
        <(B, (C, ()))>::try_from_iter(VecDeque::from_iter([A::D(D), A::B(B)])),
        Err(VecDeque::from_iter([A::D(D), A::B(B)]))
    );
    assert_eq!(<(B, (C, ())) as HListTryFromIterator<A>>::kind_tags(), vec![Tag::B, Tag::C]);
}

#[test]
fn the_empty_list_is_bound_on_every_pool() {
    assert_eq!(<()>::try_from_iter(VecDeque::<A>::new()), Ok(((), VecDeque::new())));
    assert_eq!(
        <()>::try_from_iter(VecDeque::from_iter([A::D(D)])),
        Ok(((), VecDeque::from_iter([A::D(D)])))
    );
}

#[test]
fn a_typed_list_takes_the_first_of_each_kind_and_leaves_the_others() {
    assert_eq!(
        <(C, ())>::try_from_iter(VecDeque::from_iter([A::D(D), A::C(C), A::B(B), A::C(C)])),
        Ok(((C, ()), VecDeque::from_iter([A::D(D), A::B(B), A::C(C)])))
    );
}

fn channel(name: &str) -> ChannelData {
    ChannelData(ChannelEnd {
        state: HandshakeState::Open,
        ordering: Order::Ordered,
        counterparty_port_id: "transfer".to_string(),
        counterparty_channel_id: name.to_string(),
        connection_hops: vec!["connection-0".to_string()],
        version: "ucs01-0".to_string(),
    })
}

fn connection(name: &str) -> ConnectionData {
    ConnectionData(ConnectionEnd {
        client_id: name.to_string(),
        counterparty_client_id: "07-xy-1".to_string(),
        counterparty_connection_id: "connection-4".to_string(),
        state: HandshakeState::Open,
    })
}

fn on_scroll<T>(t: T) -> Identified<T> {
    Identified { chain_id: "534352".to_string(), t }
}

#[test]
fn typed_lists_of_the_library_s_data() {
    type Pair = (Identified<ConnectionData>, (Identified<ChannelData>, ()));
    let pool = VecDeque::from_iter([
        on_scroll(Data::Scroll(ScrollData::Channel(channel("y")))),
        on_scroll(Data::Scroll(ScrollData::Connection(connection("x")))),
    ]);
    assert_eq!(
        Pair::try_from_iter(pool),
        Ok(((on_scroll(connection("x")), (on_scroll(channel("y")), ())), VecDeque::new()))
    );
    assert_eq!(
        <Pair as HListTryFromIterator<Identified<Data>>>::kind_tags(),
        vec![DataKind::ScrollConnection, DataKind::ScrollChannel]
    );
}

#[derive(Debug, Clone, PartialEq)]
struct TwoChannels;

impl UseAggregate<BlockPollingTypes> for TwoChannels {
    type AggregatedData = (Identified<ChannelData>, (Identified<ChannelData>, ()));

    fn continuation(
        self,
        _: Self::AggregatedData,
    ) -> voyager_core::queue_msg::QueueTerm<BlockPollingTypes> {
        unreachable!()
    }

    fn aggregate(
        _: Self,
        (first, (second, ())): Self::AggregatedData,
    ) -> QueueMsg<BlockPollingTypes> {
        let as_data = |c: Identified<ChannelData>| {
            QueueMsg::Data(Identified {
                chain_id: c.chain_id,
                t: Data::Scroll(ScrollData::Channel(c.t)),
            })
        };
        QueueMsg::Concurrent(vec![as_data(first), as_data(second)])
    }
}

#[test]
fn do_aggregate_hands_over_what_was_asked_for_and_returns_the_rest() {
    let item = |d: ScrollData| on_scroll(Data::Scroll(d));
    let pool = VecDeque::from_iter([
        item(ScrollData::Connection(connection("x"))),
        item(ScrollData::Channel(channel("first"))),
        item(ScrollData::Channel(channel("second"))),
        item(ScrollData::Channel(channel("third"))),
    ]);
    let (term, rest) = do_aggregate::<BlockPollingTypes, _>(TwoChannels, pool);
    assert_eq!(
        term,
        QueueMsg::Concurrent(vec![
            QueueMsg::Data(item(ScrollData::Channel(channel("first")))),
            QueueMsg::Data(item(ScrollData::Channel(channel("second"))))
        ])
    );
    assert_eq!(
        rest,
        VecDeque::from_iter([
            item(ScrollData::Connection(connection("x"))),
            item(ScrollData::Channel(channel("third")))
        ])
    );
}

#[test]
fn do_aggregate_gives_the_same_term_for_the_same_inputs() {
    let item = |d: ScrollData| on_scroll(Data::Scroll(d));
    let pool = || {
        VecDeque::from_iter([
            item(ScrollData::Channel(channel("first"))),
            item(ScrollData::Connection(connection("x"))),
            item(ScrollData::Channel(channel("second"))),
        ])
    };
    let once = do_aggregate::<BlockPollingTypes, _>(TwoChannels, pool());
    let again = do_aggregate::<BlockPollingTypes, _>(TwoChannels, pool());
    assert_eq!(once, again);
    assert_eq!(once.1, VecDeque::from_iter([item(ScrollData::Connection(connection("x")))]));
}

#[test]
fn the_join_depends_only_on_the_first_items_of_each_kind_asked_for() {
    let expected = vec![Tag::C, Tag::B];
    // the two pools agree on the first item of each kind asked for, and on
    // nothing else
    let a = match_data(&expected, VecDeque::from_iter([A::D(D), A::B(B), A::C(C), A::C(C)]));
    let b = match_data(&expected, VecDeque::from_iter([A::C(C), A::B(B), A::B(B)]));
    let bound = VecDeque::from_iter([A::C(C), A::B(B)]);
    assert_eq!(a, Ok((bound.clone(), VecDeque::from_iter([A::D(D), A::C(C)]))));
    assert_eq!(b, Ok((bound, VecDeque::from_iter([A::B(B)]))));
}

#[test]
fn pluck_takes_the_first_of_its_kind() {
    let pool = VecDeque::from_iter([A::D(D), A::C(C), A::B(B), A::C(C)]);
    assert_eq!(
        pluck(pool.clone(), &Tag::C),
        ControlFlow::Break((VecDeque::from_iter([A::D(D), A::B(B), A::C(C)]), A::C(C)))
    );
    assert_eq!(
        pluck(VecDeque::from_iter([A::D(D), A::B(B)]), &Tag::C),
        ControlFlow::Continue(VecDeque::from_iter([A::D(D), A::B(B)]))
    );
}

#[test]
fn match_data_keeps_the_pool_when_a_kind_is_missing() {
    let expected = vec![Tag::B, Tag::D];
    assert_eq!(
        match_data(&expected, VecDeque::from_iter([A::C(C), A::B(B)])),
        Err(VecDeque::from_iter([A::C(C), A::B(B)]))
    );
    assert_eq!(
        match_data(&expected, VecDeque::from_iter([A::C(C), A::D(D), A::B(B)])),
        Ok((VecDeque::from_iter([A::B(B), A::D(D)]), VecDeque::from_iter([A::C(C)])))
    );
}

#[test]
fn the_join_looks_at_each_kind_by_itself() {
    let item = |d: ScrollData| on_scroll(Data::Scroll(d));
    let expected = vec![DataKind::ScrollConnection, DataKind::ScrollChannel];
    let bound = VecDeque::from_iter([
        item(ScrollData::Connection(connection("x"))),
        item(ScrollData::Channel(channel("y"))),
    ]);

    // the same items of each kind, in the same order, interleaved in three ways
    let pools = [
        vec![
            item(ScrollData::Channel(channel("y"))),
            item(ScrollData::Connection(connection("x"))),
            item(ScrollData::Channel(channel("z"))),
            item(ScrollData::Connection(connection("w"))),
        ],
        vec![
            item(ScrollData::Connection(connection("x"))),
            item(ScrollData::Connection(connection("w"))),
            item(ScrollData::Channel(channel("y"))),
            item(ScrollData::Channel(channel("z"))),
        ],
        vec![
            item(ScrollData::Channel(channel("y"))),
            item(ScrollData::Channel(channel("z"))),
            item(ScrollData::Connection(connection("x"))),
            item(ScrollData::Connection(connection("w"))),
        ],
    ];
    for pool in pools {
        match match_data(&expected, VecDeque::from_iter(pool)) {
            Ok((matched, rest)) => {
                assert_eq!(matched, bound);
                assert_eq!(rest.len(), 2);
                assert!(rest.contains(&item(ScrollData::Channel(channel("z")))));
                assert!(rest.contains(&item(ScrollData::Connection(connection("w")))));
            }
            Err(pool) => panic!("unexpected {pool:?}"),
        }
    }

    // among the items of one kind the first one is taken
    let swapped = vec![
        item(ScrollData::Channel(channel("z"))),
        item(ScrollData::Connection(connection("x"))),
        item(ScrollData::Channel(channel("y"))),
    ];
    assert_eq!(
        match_data(&expected, VecDeque::from_iter(swapped)),
        Ok((
            VecDeque::from_iter([
                item(ScrollData::Connection(connection("x"))),
                item(ScrollData::Channel(channel("z")))
            ]),
            VecDeque::from_iter([item(ScrollData::Channel(channel("y")))])
        ))
    );
}
