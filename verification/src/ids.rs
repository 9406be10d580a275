//! Identities of rooms, users, workers and media.

use vstd::prelude::*;
use vstd::string::StringExecFns;

use crate::order::{
    lemma_text_irreflexive, lemma_text_total, lemma_text_transitive, order_text, order_u64,
    text_before, OrdKey, Order,
};

verus! {

/// Runtime-local identity of one room instance.
#[derive(Debug, Clone, Copy, PartialEq, Eq, PartialOrd, Ord, Hash, Structural)]
pub struct RoomInstanceId(pub u64);

impl RoomInstanceId {
    pub fn from_raw(raw: u64) -> (r: Self)
        ensures
            r == RoomInstanceId(raw),
    {
        RoomInstanceId(raw)
    }

    pub fn as_u64(self) -> (r: u64)
        ensures
            r == self.0,
    {
        self.0
    }
}

/// A media worker of the process.
#[derive(Debug, Clone, Copy, PartialEq, Eq, PartialOrd, Ord, Hash, Structural)]
pub struct MediaWorkerId(pub usize);

impl MediaWorkerId {
    pub fn from_raw(raw: usize) -> (r: Self)
        ensures
            r == MediaWorkerId(raw),
    {
        MediaWorkerId(raw)
    }

    pub fn as_usize(self) -> (r: usize)
        ensures
            r == self.0,
    {
        self.0
    }
}

/// One connection of a user; a reconnect receives a new one.
#[derive(Debug, Clone, Copy, PartialEq, Eq, PartialOrd, Ord, Hash, Structural)]
pub struct ConnectionId(pub u64);

impl ConnectionId {
    pub fn from_raw(raw: u64) -> (r: Self)
        ensures
            r == ConnectionId(raw),
    {
        ConnectionId(raw)
    }

    pub fn as_u64(self) -> (r: u64)
        ensures
            r == self.0,
    {
        self.0
    }
}

/// Transport-local media line.
#[derive(Debug, Clone, Copy, PartialEq, Eq, PartialOrd, Ord, Hash, Structural)]
pub struct TransportMediaId(pub u64);

impl TransportMediaId {
    pub fn new(raw: u64) -> (r: Self)
        ensures
            r == TransportMediaId(raw),
    {
        TransportMediaId(raw)
    }

    pub fn as_u64(self) -> (r: u64)
        ensures
            r == self.0,
    {
        self.0
    }
}

/// One committed publication.
#[derive(Debug, Clone, Copy, PartialEq, Eq, PartialOrd, Ord, Hash, Structural)]
pub struct PublishedSourceId(pub u64);

impl PublishedSourceId {
    pub fn from_raw(raw: u64) -> (r: Self)
        ensures
            r == PublishedSourceId(raw),
    {
        PublishedSourceId(raw)
    }

    pub fn as_u64(self) -> (r: u64)
        ensures
            r == self.0,
    {
        self.0
    }
}

/// One encoding of a publication.
#[derive(Debug, Clone, Copy, PartialEq, Eq, PartialOrd, Ord, Hash, Structural)]
pub struct SourceEncodingId(pub u64);

impl SourceEncodingId {
    pub fn from_raw(raw: u64) -> (r: Self)
        ensures
            r == SourceEncodingId(raw),
    {
        SourceEncodingId(raw)
    }

    pub fn as_u64(self) -> (r: u64)
        ensures
            r == self.0,
    {
        self.0
    }
}

/// A router of the media plane.
#[derive(Debug, Clone, Copy, PartialEq, Eq, PartialOrd, Ord, Hash, Structural)]
pub struct RouterId(pub u64);

impl RouterId {
    pub fn from_raw(raw: u64) -> (r: Self)
        ensures
            r == RouterId(raw),
    {
        RouterId(raw)
    }

    pub fn as_u64(self) -> (r: u64)
        ensures
            r == self.0,
    {
        self.0
    }
}

/// A router producer.
#[derive(Debug, Clone, Copy, PartialEq, Eq, PartialOrd, Ord, Hash, Structural)]
pub struct ProducerId(pub u64);

impl ProducerId {
    pub fn from_raw(raw: u64) -> (r: Self)
        ensures
            r == ProducerId(raw),
    {
        ProducerId(raw)
    }

    pub fn as_u64(self) -> (r: u64)
        ensures
            r == self.0,
    {
        self.0
    }
}

/// The outbound queue through which one connection is reached.
#[derive(Debug, Clone, Copy, PartialEq, Eq, PartialOrd, Ord, Hash, Structural)]
pub struct OutboundLane(pub u64);

impl OutboundLane {
    pub fn from_raw(raw: u64) -> (r: Self)
        ensures
            r == OutboundLane(raw),
    {
        OutboundLane(raw)
    }

    pub fn as_u64(self) -> (r: u64)
        ensures
            r == self.0,
    {
        self.0
    }
}

/// A router consumer.
#[derive(Debug, Clone, Copy, PartialEq, Eq, PartialOrd, Ord, Hash, Structural)]
pub struct ConsumerId(pub u64);

/// Decimal digits of a number.
pub open spec fn decimal(n: nat) -> Seq<char>
    decreases n,
{
    if n < 10 {
        seq![digit(n)]
    } else {
        decimal(n / 10).push(digit(n % 10))
    }
}

pub open spec fn digit(n: nat) -> char {
    if n == 0 {
        '0'
    } else if n == 1 {
        '1'
    } else if n == 2 {
        '2'
    } else if n == 3 {
        '3'
    } else if n == 4 {
        '4'
    } else if n == 5 {
        '5'
    } else if n == 6 {
        '6'
    } else if n == 7 {
        '7'
    } else if n == 8 {
        '8'
    } else {
        '9'
    }
}

fn digit_text(n: u64) -> (r: &'static str)
    requires
        n < 10,
    ensures
        r@ == seq![digit(n as nat)],
{
    proof {
        reveal_strlit("0");
        reveal_strlit("1");
        reveal_strlit("2");
        reveal_strlit("3");
        reveal_strlit("4");
        reveal_strlit("5");
        reveal_strlit("6");
        reveal_strlit("7");
        reveal_strlit("8");
        reveal_strlit("9");
    }
    match n {
        0 => "0",
        1 => "1",
        2 => "2",
        3 => "3",
        4 => "4",
        5 => "5",
        6 => "6",
        7 => "7",
        8 => "8",
        _ => "9",
    }
}

/// Writes a number in decimal.
pub fn decimal_text(n: u64) -> (r: String)
    ensures
        r@ == decimal(n as nat),
    decreases n,
{
    if n < 10 {
        digit_text(n).to_owned()
    } else {
        let mut r = decimal_text(n / 10);
        r.append(digit_text(n % 10));
        proof {
            assert(r@ =~= decimal((n / 10) as nat).push(digit((n % 10) as nat)));
        }
        r
    }
}

impl ConsumerId {
    pub fn from_raw(raw: u64) -> (r: Self)
        ensures
            r == ConsumerId(raw),
    {
        ConsumerId(raw)
    }

    pub fn as_u64(self) -> (r: u64)
        ensures
            r == self.0,
    {
        self.0
    }

    /// Text form: `consumer-` and the number.
    pub open spec fn text(self) -> Seq<char> {
        "consumer-"@ + decimal(self.0 as nat)
    }

    pub fn to_text(self) -> (r: String)
        ensures
            r@ == self.text(),
    {
        let mut r = "consumer-".to_owned();
        let number = decimal_text(self.0);
        r.append(number.as_str());
        r
    }
}

/// A producer as the router knows it.
#[derive(Debug, Clone, Copy, PartialEq, Eq, Structural)]
pub struct RoutedProducerId {
    pub router: RouterId,
    pub connection: ConnectionId,
    pub producer: ProducerId,
}

/// A consumer as the router knows it.
#[derive(Debug, Clone, Copy, PartialEq, Eq, Structural)]
pub struct RoutedConsumerId {
    pub router: RouterId,
    pub connection: ConnectionId,
    pub consumer: ConsumerId,
}

/// A user of the embedding application.
#[derive(Debug, PartialEq, Eq, PartialOrd, Ord, Hash)]
pub enum UserId {
    Integer(i64),
    String(String),
}

/// What distinguishes one user from another.
pub enum UserIdentity {
    Integer(i64),
    Text(Seq<char>),
}

impl Clone for UserId {
    fn clone(&self) -> (r: Self)
        ensures
            r == *self,
    {
        match self {
            UserId::Integer(value) => UserId::Integer(*value),
            UserId::String(value) => UserId::String(value.clone()),
        }
    }
}

impl OrdKey for UserId {
    type Id = UserIdentity;

    open spec fn id(&self) -> UserIdentity {
        match self {
            UserId::Integer(value) => UserIdentity::Integer(*value),
            UserId::String(value) => UserIdentity::Text(value@),
        }
    }

    /// Integers come before text.
    open spec fn before(a: UserIdentity, b: UserIdentity) -> bool {
        match (a, b) {
            (UserIdentity::Integer(x), UserIdentity::Integer(y)) => x < y,
            (UserIdentity::Integer(_), UserIdentity::Text(_)) => true,
            (UserIdentity::Text(_), UserIdentity::Integer(_)) => false,
            (UserIdentity::Text(x), UserIdentity::Text(y)) => text_before(x, y),
        }
    }

    proof fn law_irreflexive(a: UserIdentity) {
        if let UserIdentity::Text(x) = a {
            lemma_text_irreflexive(x);
        }
    }

    proof fn law_transitive(a: UserIdentity, b: UserIdentity, c: UserIdentity) {
        if let (UserIdentity::Text(x), UserIdentity::Text(y), UserIdentity::Text(z)) = (a, b, c) {
            lemma_text_transitive(x, y, z);
        }
    }

    proof fn law_total(a: UserIdentity, b: UserIdentity) {
        if let (UserIdentity::Text(x), UserIdentity::Text(y)) = (a, b) {
            lemma_text_total(x, y);
        }
    }

    fn order(&self, other: &Self) -> (o: Order) {
        match self {
            UserId::Integer(x) => match other {
                UserId::Integer(y) => if *x < *y {
                    Order::Before
                } else if *x == *y {
                    Order::Same
                } else {
                    Order::After
                },
                UserId::String(_) => Order::Before,
            },
            UserId::String(x) => match other {
                UserId::Integer(_) => Order::After,
                UserId::String(y) => order_text(x.as_str(), y.as_str()),
            },
        }
    }

    fn duplicate(&self) -> (r: Self) {
        self.clone()
    }
}

/// A logical stream of a publisher, such as its camera.
#[derive(Debug, PartialEq, Eq, PartialOrd, Ord, Hash)]
pub struct UserStreamId(pub String);

impl UserStreamId {
    pub fn new(name: &str) -> (r: Self)
        ensures
            r.id() == name@,
    {
        UserStreamId(name.to_owned())
    }

    pub fn as_str(&self) -> (r: &str)
        ensures
            r@ == self.id(),
    {
        self.0.as_str()
    }
}

impl Clone for UserStreamId {
    fn clone(&self) -> (r: Self)
        ensures
            r == *self,
    {
        UserStreamId(self.0.clone())
    }
}

impl OrdKey for UserStreamId {
    type Id = Seq<char>;

    open spec fn id(&self) -> Seq<char> {
        self.0@
    }

    open spec fn before(a: Seq<char>, b: Seq<char>) -> bool {
        text_before(a, b)
    }

    proof fn law_irreflexive(a: Seq<char>) {
        lemma_text_irreflexive(a);
    }

    proof fn law_transitive(a: Seq<char>, b: Seq<char>, c: Seq<char>) {
        lemma_text_transitive(a, b, c);
    }

    proof fn law_total(a: Seq<char>, b: Seq<char>) {
        lemma_text_total(a, b);
    }

    fn order(&self, other: &Self) -> (o: Order) {
        order_text(self.0.as_str(), other.0.as_str())
    }

    fn duplicate(&self) -> (r: Self) {
        self.clone()
    }
}

impl OrdKey for MediaWorkerId {
    type Id = usize;

    open spec fn id(&self) -> usize {
        self.0
    }

    open spec fn before(a: usize, b: usize) -> bool {
        a < b
    }

    proof fn law_irreflexive(a: usize) {
    }

    proof fn law_transitive(a: usize, b: usize, c: usize) {
    }

    proof fn law_total(a: usize, b: usize) {
    }

    fn order(&self, other: &Self) -> (o: Order) {
        order_u64(self.0 as u64, other.0 as u64)
    }

    fn duplicate(&self) -> (r: Self) {
        *self
    }
}

impl OrdKey for PublishedSourceId {
    type Id = u64;

    open spec fn id(&self) -> u64 {
        self.0
    }

    open spec fn before(a: u64, b: u64) -> bool {
        a < b
    }

    proof fn law_irreflexive(a: u64) {
    }

    proof fn law_transitive(a: u64, b: u64, c: u64) {
    }

    proof fn law_total(a: u64, b: u64) {
    }

    fn order(&self, other: &Self) -> (o: Order) {
        order_u64(self.0, other.0)
    }

    fn duplicate(&self) -> (r: Self) {
        *self
    }
}

impl OrdKey for TransportMediaId {
    type Id = u64;

    open spec fn id(&self) -> u64 {
        self.0
    }

    open spec fn before(a: u64, b: u64) -> bool {
        a < b
    }

    proof fn law_irreflexive(a: u64) {
    }

    proof fn law_transitive(a: u64, b: u64, c: u64) {
    }

    proof fn law_total(a: u64, b: u64) {
    }

    fn order(&self, other: &Self) -> (o: Order) {
        order_u64(self.0, other.0)
    }

    fn duplicate(&self) -> (r: Self) {
        *self
    }
}

impl OrdKey for RoomInstanceId {
    type Id = u64;

    open spec fn id(&self) -> u64 {
        self.0
    }

    open spec fn before(a: u64, b: u64) -> bool {
        a < b
    }

    proof fn law_irreflexive(a: u64) {
    }

    proof fn law_transitive(a: u64, b: u64, c: u64) {
    }

    proof fn law_total(a: u64, b: u64) {
    }

    fn order(&self, other: &Self) -> (o: Order) {
        order_u64(self.0, other.0)
    }

    fn duplicate(&self) -> (r: Self) {
        *self
    }
}

impl OrdKey for String {
    type Id = Seq<char>;

    open spec fn id(&self) -> Seq<char> {
        self@
    }

    open spec fn before(a: Seq<char>, b: Seq<char>) -> bool {
        text_before(a, b)
    }

    proof fn law_irreflexive(a: Seq<char>) {
        lemma_text_irreflexive(a);
    }

    proof fn law_transitive(a: Seq<char>, b: Seq<char>, c: Seq<char>) {
        lemma_text_transitive(a, b, c);
    }

    proof fn law_total(a: Seq<char>, b: Seq<char>) {
        lemma_text_total(a, b);
    }

    fn order(&self, other: &Self) -> (o: Order) {
        order_text(self.as_str(), other.as_str())
    }

    fn duplicate(&self) -> (r: Self) {
        self.clone()
    }
}

/// Whether two keys have the same identity.
pub fn same<K: OrdKey>(a: &K, b: &K) -> (r: bool)
    ensures
        r == (a.id() == b.id()),
{
    match a.order(b) {
        Order::Same => true,
        Order::Before => {
            proof {
                K::law_irreflexive(a.id());
            }
            false
        },
        Order::After => {
            proof {
                K::law_irreflexive(a.id());
            }
            false
        },
    }
}

} // verus!
