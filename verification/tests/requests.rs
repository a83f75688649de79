//! Whole requests, against a small database in memory.

use friends::controllers::calendar_controller::{
    get_my_calendar, get_user_calendar, is_busy, BuildCalendar,
};
use friends::controllers::event_controller::active::get_active_events_on;
use friends::controllers::event_controller::availability::{
    check_friends_availability, check_user_availability, CheckAvailabilityQuery,
};
use friends::controllers::event_controller::cancel::cancel_event;
use friends::controllers::event_controller::create::{create_event, guests_of};
use friends::controllers::event_controller::finish::finish_event_on;
use friends::controllers::event_controller::list::{
    get_events, get_events_on, get_pending_events, get_waiting_events_on,
};
use friends::controllers::event_controller::respond::{accept_event, decline_event};
use friends::controllers::event_controller::rules::map_db_constraint_error;
use friends::controllers::event_controller::show::{get_event, get_event_participants};
use friends::controllers::friendship_controller::{
    accept_friend_request, friend_request, get_friends, get_incoming, get_outgoing,
    reject_friend_request, remove_friend,
};
use friends::controllers::models::{
    AuthUser, CalendarQuery, CalendarResponse, CreateEventBody, CreateWishPlaceBody,
    EventResponse, EventScope, EventScopeQuery, FinishEventBody, FriendIdBody, IsBusyRequest,
    UpdateUserRequestBody, UpdateWishPlaceBody, UserDTO, UserNameSearchQuery, UserResponse,
    VisitWishPlaceBody, WishPlaceQuery, WishPlaceStatusDto,
};
use friends::controllers::users_controller::{get_me, get_user_by_id, search_users, update_me};
use friends::controllers::wish_place_controller::{
    create_wish_place, delete_wish_place, get_wish_places, update_wish_place, visit_wish_place,
};
use friends::entities::{
    BusydayRow, EventRow, EventStatus, FriendshipRow, FriendshipStatus, Id, UserEventResponse,
    UserEventRole, UserEventRow, UserRow, WishPlaceRow, WishPlaceStatus,
};
use friends::machine::{Machine, Step};
use friends::refusal::{Refusal, StatusCode};
use friends::store::{
    BusydayTest, Cond, EventTest, FriendshipTest, Order, Reply, Request, UserEventTest, UserTest,
    WishPlaceTest,
};
use friends::time::{Date, Timestamp};

trait Passes {
    type Row;

    fn passes(&self, row: &Self::Row) -> bool;
}

fn admits<T: Passes>(cond: &Cond<T>, row: &T::Row) -> bool {
    match cond {
        Cond::Is(test) => test.passes(row),
        Cond::All(a, b) => admits(a, row) && admits(b, row),
        Cond::Any(a, b) => admits(a, row) || admits(b, row),
    }
}

fn same(a: &Date, b: &Date) -> bool {
    !a.is_before(b) && !b.is_before(a)
}

fn like(pattern: &[char], text: &[char]) -> bool {
    match pattern.first() {
        None => text.is_empty(),
        Some('%') => {
            like(&pattern[1..], text) || (!text.is_empty() && like(pattern, &text[1..]))
        }
        Some('\\') if pattern.len() >= 2 => {
            !text.is_empty() && text[0] == pattern[1] && like(&pattern[2..], &text[1..])
        }
        Some(c) => {
            !text.is_empty() && (*c == '_' || *c == text[0]) && like(&pattern[1..], &text[1..])
        }
    }
}

impl Passes for UserTest {
    type Row = UserRow;

    fn passes(&self, row: &UserRow) -> bool {
        match self {
            UserTest::Id(id) => row.id == *id,
            UserTest::IdIn(ids) => ids.contains(&row.id),
            UserTest::IdNotIn(ids) => !ids.contains(&row.id),
            UserTest::UsernameLike(pattern) => {
                let pattern: Vec<char> = pattern.chars().collect();
                let name: Vec<char> = row.username.chars().collect();
                like(&pattern, &name)
            }
        }
    }
}

impl Passes for FriendshipTest {
    type Row = FriendshipRow;

    fn passes(&self, row: &FriendshipRow) -> bool {
        match self {
            FriendshipTest::UserId(id) => row.user_id == *id,
            FriendshipTest::FriendId(id) => row.friend_id == *id,
            FriendshipTest::StatusIs(status) => row.status == *status,
        }
    }
}

impl Passes for EventTest {
    type Row = EventRow;

    fn passes(&self, row: &EventRow) -> bool {
        match self {
            EventTest::Id(id) => row.id == *id,
            EventTest::IdIn(ids) => ids.contains(&row.id),
            EventTest::CreatorId(id) => row.creator_id == *id,
            EventTest::DateFrom(day) => !row.date.is_before(day),
            EventTest::DateUpTo(day) => !day.is_before(&row.date),
            EventTest::DateBefore(day) => row.date.is_before(day),
            EventTest::StatusIs(status) => row.status == *status,
            EventTest::StatusIsNot(status) => row.status != *status,
        }
    }
}

impl Passes for UserEventTest {
    type Row = UserEventRow;

    fn passes(&self, row: &UserEventRow) -> bool {
        match self {
            UserEventTest::EventId(id) => row.event_id == *id,
            UserEventTest::UserId(id) => row.user_id == *id,
            UserEventTest::RoleIs(role) => row.role == *role,
            UserEventTest::ResponseIs(response) => row.response_status == *response,
            UserEventTest::ResponseIsNot(response) => row.response_status != *response,
        }
    }
}

impl Passes for BusydayTest {
    type Row = BusydayRow;

    fn passes(&self, row: &BusydayRow) -> bool {
        match self {
            BusydayTest::UserId(id) => row.user_id == *id,
            BusydayTest::UserIdIn(ids) => ids.contains(&row.user_id),
            BusydayTest::DateIs(day) => same(&row.date, day),
            BusydayTest::DateFrom(day) => !row.date.is_before(day),
            BusydayTest::DateUpTo(day) => !day.is_before(&row.date),
            BusydayTest::EventId(id) => row.event_id == Some(*id),
        }
    }
}

impl Passes for WishPlaceTest {
    type Row = WishPlaceRow;

    fn passes(&self, row: &WishPlaceRow) -> bool {
        match self {
            WishPlaceTest::Id(id) => row.id == *id,
            WishPlaceTest::UserId(id) => row.user_id == *id,
        }
    }
}

fn copy_user(row: &UserRow) -> UserRow {
    UserRow {
        id: row.id,
        username: row.username.clone(),
        avatar_url: row.avatar_url.clone(),
        bio: row.bio.clone(),
    }
}

fn copy_event(row: &EventRow) -> EventRow {
    EventRow {
        id: row.id,
        creator_id: row.creator_id,
        date: row.date,
        title: row.title.clone(),
        description: row.description.clone(),
        location: row.location.clone(),
        status: row.status,
        wish_place_id: row.wish_place_id,
        memory_image_base64: row.memory_image_base64.clone(),
        created_at: row.created_at,
    }
}

fn copy_place(row: &WishPlaceRow) -> WishPlaceRow {
    WishPlaceRow {
        id: row.id,
        user_id: row.user_id,
        title: row.title.clone(),
        description: row.description.clone(),
        location: row.location.clone(),
        link: row.link.clone(),
        status: row.status,
        visited_event_id: row.visited_event_id,
        created_at: row.created_at,
    }
}

#[derive(Debug)]
struct Tables {
    users: Vec<UserRow>,
    friendships: Vec<FriendshipRow>,
    events: Vec<EventRow>,
    user_events: Vec<UserEventRow>,
    busydays: Vec<BusydayRow>,
    wish_places: Vec<WishPlaceRow>,
}

impl Tables {
    fn copy(&self) -> Tables {
        Tables {
            users: self.users.iter().map(copy_user).collect(),
            friendships: self.friendships.clone(),
            events: self.events.iter().map(copy_event).collect(),
            user_events: self.user_events.clone(),
            busydays: self.busydays.clone(),
            wish_places: self.wish_places.iter().map(copy_place).collect(),
        }
    }
}

struct Db {
    tables: Tables,
    saved: Option<Tables>,
    next_id: Id,
    fails_at: Option<usize>,
    asked: usize,
}

fn found<T: Passes>(rows: &[T::Row], cond: &Cond<T>) -> Vec<usize> {
    (0..rows.len()).filter(|i| admits(cond, &rows[*i])).collect()
}

fn by_date(a: &Date, b: &Date) -> std::cmp::Ordering {
    (a.year(), a.month(), a.day()).cmp(&(b.year(), b.month(), b.day()))
}

impl Db {
    /// Users 1 to 5; 1 is a friend of 2, 3 and 4.
    fn new() -> Db {
        let names = ["ann", "bob", "cid", "dan", "eve"];
        let mut db = Db {
            tables: Tables {
                users: Vec::new(),
                friendships: Vec::new(),
                events: Vec::new(),
                user_events: Vec::new(),
                busydays: Vec::new(),
                wish_places: Vec::new(),
            },
            saved: None,
            next_id: 100,
            fails_at: None,
            asked: 0,
        };
        for (i, name) in names.iter().enumerate() {
            db.tables.users.push(UserRow {
                id: i as Id + 1,
                username: name.to_string(),
                avatar_url: None,
                bio: None,
            });
        }
        db.befriend(1, 2);
        db.befriend(3, 1);
        db.befriend(1, 4);
        db
    }

    fn id(&mut self) -> Id {
        self.next_id += 1;
        self.next_id
    }

    fn befriend(&mut self, a: Id, b: Id) {
        let id = self.id();
        self.tables.friendships.push(FriendshipRow {
            id,
            user_id: a,
            friend_id: b,
            status: FriendshipStatus::Accepted,
        });
    }

    fn take_day(&mut self, user_id: Id, date: Date) {
        let id = self.id();
        self.tables.busydays.push(BusydayRow { id, user_id, date, event_id: None });
    }

    fn ask(&mut self, request: Request) -> Reply {
        let at = self.asked;
        self.asked += 1;
        if self.fails_at == Some(at) {
            return Reply::Fault("connection lost".to_string());
        }
        self.answer(request)
    }

    fn answer(&mut self, request: Request) -> Reply {
        let id = self.id();
        let now = Timestamp::new(1_772_532_000 + id as i64, 0, 0).unwrap();
        let t = &mut self.tables;
        match request {
            Request::Begin => {
                self.saved = Some(t.copy());
                Reply::Done
            }
            Request::Commit => {
                self.saved = None;
                Reply::Done
            }
            Request::OneUser(c) => {
                Reply::User(found(&t.users, &c).first().map(|i| copy_user(&t.users[*i])))
            }
            Request::OneFriendship(c) => Reply::Friendship(
                found(&t.friendships, &c).first().map(|i| t.friendships[*i]),
            ),
            Request::OneEvent(c) => {
                Reply::Event(found(&t.events, &c).first().map(|i| copy_event(&t.events[*i])))
            }
            Request::OneUserEvent(c) => Reply::UserEvent(
                found(&t.user_events, &c).first().map(|i| t.user_events[*i]),
            ),
            Request::OneBusyday(c) => {
                Reply::Busyday(found(&t.busydays, &c).first().map(|i| t.busydays[*i]))
            }
            Request::OneWishPlace(c) => Reply::WishPlace(
                found(&t.wish_places, &c).first().map(|i| copy_place(&t.wish_places[*i])),
            ),
            Request::AllUsers(c, order) => {
                let mut rows: Vec<UserRow> =
                    found(&t.users, &c).iter().map(|i| copy_user(&t.users[*i])).collect();
                match order {
                    Order::Unspecified => {}
                    Order::Ascending => rows.sort_by(|a, b| a.username.cmp(&b.username)),
                    Order::Descending => rows.sort_by(|a, b| b.username.cmp(&a.username)),
                }
                Reply::Users(rows)
            }
            Request::AllFriendships(c) => Reply::Friendships(
                found(&t.friendships, &c).iter().map(|i| t.friendships[*i]).collect(),
            ),
            Request::AllEvents(c, order) => {
                let mut rows: Vec<EventRow> =
                    found(&t.events, &c).iter().map(|i| copy_event(&t.events[*i])).collect();
                match order {
                    Order::Unspecified => {}
                    Order::Ascending => rows.sort_by(|a, b| by_date(&a.date, &b.date)),
                    Order::Descending => rows.sort_by(|a, b| by_date(&b.date, &a.date)),
                }
                Reply::Events(rows)
            }
            Request::AllUserEvents(c, order) => {
                let mut rows: Vec<UserEventRow> =
                    found(&t.user_events, &c).iter().map(|i| t.user_events[*i]).collect();
                match order {
                    Order::Unspecified => {}
                    Order::Ascending => rows.sort_by_key(|row| row.user_id),
                    Order::Descending => rows.sort_by_key(|row| std::cmp::Reverse(row.user_id)),
                }
                Reply::UserEvents(rows)
            }
            Request::AllBusydays(c, order) => {
                let mut rows: Vec<BusydayRow> =
                    found(&t.busydays, &c).iter().map(|i| t.busydays[*i]).collect();
                match order {
                    Order::Unspecified => {}
                    Order::Ascending => rows.sort_by(|a, b| by_date(&a.date, &b.date)),
                    Order::Descending => rows.sort_by(|a, b| by_date(&b.date, &a.date)),
                }
                Reply::Busydays(rows)
            }
            Request::AllWishPlaces(c, order) => {
                let mut rows: Vec<WishPlaceRow> = found(&t.wish_places, &c)
                    .iter()
                    .map(|i| copy_place(&t.wish_places[*i]))
                    .collect();
                match order {
                    Order::Unspecified | Order::Ascending => {}
                    Order::Descending => rows.reverse(),
                }
                Reply::WishPlaces(rows)
            }
            Request::CountUserEvents(c) => Reply::Count(found(&t.user_events, &c).len() as u64),
            Request::InsertFriendship(new) => {
                t.friendships.push(FriendshipRow {
                    id,
                    user_id: new.user_id,
                    friend_id: new.friend_id,
                    status: new.status,
                });
                Reply::Done
            }
            Request::InsertEvent(new) => {
                let row = EventRow {
                    id,
                    creator_id: new.creator_id,
                    date: new.date,
                    title: new.title,
                    description: new.description,
                    location: new.location,
                    status: new.status,
                    wish_place_id: new.wish_place_id,
                    memory_image_base64: new.memory_image_base64,
                    created_at: now,
                };
                t.events.push(copy_event(&row));
                Reply::StoredEvent(row)
            }
            Request::InsertUserEvent(new) => {
                t.user_events.push(UserEventRow {
                    id,
                    event_id: new.event_id,
                    user_id: new.user_id,
                    role: new.role,
                    response_status: new.response_status,
                });
                Reply::Done
            }
            Request::InsertUserEvents(news) => {
                for new in news {
                    self.next_id += 1;
                    t.user_events.push(UserEventRow {
                        id: self.next_id,
                        event_id: new.event_id,
                        user_id: new.user_id,
                        role: new.role,
                        response_status: new.response_status,
                    });
                }
                Reply::Done
            }
            Request::InsertBusyday(new) => {
                if t.busydays
                    .iter()
                    .any(|row| row.user_id == new.user_id && same(&row.date, &new.date))
                {
                    return Reply::Fault("duplicate key value".to_string());
                }
                t.busydays.push(BusydayRow {
                    id,
                    user_id: new.user_id,
                    date: new.date,
                    event_id: new.event_id,
                });
                Reply::Done
            }
            Request::InsertWishPlace(new) => {
                let row = WishPlaceRow {
                    id,
                    user_id: new.user_id,
                    title: new.title,
                    description: new.description,
                    location: new.location,
                    link: new.link,
                    status: new.status,
                    visited_event_id: new.visited_event_id,
                    created_at: now,
                };
                t.wish_places.push(copy_place(&row));
                Reply::StoredWishPlace(row)
            }
            Request::UpdateUser(id, changes) => {
                let row = t.users.iter_mut().find(|row| row.id == id).unwrap();
                if let Some(username) = changes.username {
                    row.username = username;
                }
                if changes.avatar_url.is_some() {
                    row.avatar_url = changes.avatar_url;
                }
                if changes.bio.is_some() {
                    row.bio = changes.bio;
                }
                Reply::StoredUser(copy_user(row))
            }
            Request::UpdateFriendship(id, status) => {
                t.friendships.iter_mut().find(|row| row.id == id).unwrap().status = status;
                Reply::Done
            }
            Request::UpdateEvent(id, changes) => {
                let row = t.events.iter_mut().find(|row| row.id == id).unwrap();
                if let Some(status) = changes.status {
                    row.status = status;
                }
                if changes.memory_image_base64.is_some() {
                    row.memory_image_base64 = changes.memory_image_base64;
                }
                Reply::Done
            }
            Request::UpdateUserEvent(id, response) => {
                t.user_events.iter_mut().find(|row| row.id == id).unwrap().response_status =
                    response;
                Reply::Done
            }
            Request::UpdateWishPlace(id, changes) => {
                let row = t.wish_places.iter_mut().find(|row| row.id == id).unwrap();
                if let Some(title) = changes.title {
                    row.title = title;
                }
                if changes.description.is_some() {
                    row.description = changes.description;
                }
                if changes.location.is_some() {
                    row.location = changes.location;
                }
                if changes.link.is_some() {
                    row.link = changes.link;
                }
                if let Some(status) = changes.status {
                    row.status = status;
                }
                if let Some(event) = changes.visited_event_id {
                    row.visited_event_id = event;
                }
                Reply::StoredWishPlace(copy_place(row))
            }
            Request::DeleteFriendship(id) => {
                t.friendships.retain(|row| row.id != id);
                Reply::Done
            }
            Request::DeleteFriendships(c) => {
                let before = t.friendships.len();
                t.friendships.retain(|row| !admits(&c, row));
                Reply::Count((before - t.friendships.len()) as u64)
            }
            Request::DeleteEvent(id) => {
                t.events.retain(|row| row.id != id);
                Reply::Done
            }
            Request::DeleteUserEvents(c) => {
                let before = t.user_events.len();
                t.user_events.retain(|row| !admits(&c, row));
                Reply::Count((before - t.user_events.len()) as u64)
            }
            Request::DeleteBusydays(c) => {
                let before = t.busydays.len();
                t.busydays.retain(|row| !admits(&c, row));
                Reply::Count((before - t.busydays.len()) as u64)
            }
        }
    }

    /// Runs a request to its end; a transaction that is still open is undone.
    fn run<M: Machine>(&mut self, first: Step<M, M::Out>) -> Result<M::Out, Refusal> {
        self.asked = 0;
        let mut step = first;
        loop {
            match step {
                Step::Ask(machine, request) => {
                    let reply = self.ask(request);
                    step = machine.resume(reply);
                }
                Step::Done(result) => {
                    if let Some(saved) = self.saved.take() {
                        self.tables = saved;
                    }
                    return result;
                }
            }
        }
    }

    /// Runs a request of which the question at `at` fails.
    fn run_failing<M: Machine>(
        &mut self,
        at: usize,
        first: Step<M, M::Out>,
    ) -> Result<M::Out, Refusal> {
        self.fails_at = Some(at);
        let result = self.run(first);
        self.fails_at = None;
        result
    }

    fn text(&self) -> String {
        format!("{:?}", self.tables)
    }

    fn event(&self, id: Id) -> &EventRow {
        self.tables.events.iter().find(|row| row.id == id).unwrap()
    }

    fn response(&self, event_id: Id, user_id: Id) -> UserEventResponse {
        self.tables
            .user_events
            .iter()
            .find(|row| row.event_id == event_id && row.user_id == user_id)
            .unwrap()
            .response_status
    }

    fn busy(&self, user_id: Id, date: Date) -> bool {
        self.tables.busydays.iter().any(|row| row.user_id == user_id && same(&row.date, &date))
    }

    /// Makes an event of user 1.
    fn event_with(&mut self, date: Date, guests: &[Id]) -> Id {
        self.run(create_event(auth(1), body(date, guests))).unwrap().1.id
    }
}

fn auth(user_id: Id) -> AuthUser {
    AuthUser { user_id }
}

fn day(month: u32, day: u32) -> Date {
    Date::new(2026, month, day).unwrap()
}

fn body(date: Date, guests: &[Id]) -> CreateEventBody {
    CreateEventBody {
        date: date.to_string(),
        title: "Coffee meetup".to_string(),
        description: Some("beans".to_string()),
        location: None,
        time: None,
        participant_ids: guests.to_vec(),
        wish_place_id: Some(7),
    }
}

fn on(date: &str) -> CheckAvailabilityQuery {
    CheckAvailabilityQuery { date: date.to_string() }
}

fn ids(events: &[EventResponse]) -> Vec<Id> {
    events.iter().map(|event| event.id).collect()
}

fn people(users: &[UserDTO]) -> Vec<Id> {
    users.iter().map(|user| user.id).collect()
}

#[test]
fn a_new_event_is_pending_and_its_guests_are_invited() {
    let mut db = Db::new();
    let (code, shown) =
        db.run(create_event(auth(1), body(day(3, 3), &[4, 2, 1, 2]))).unwrap();
    assert_eq!(code, StatusCode::Created);
    assert_eq!(shown.creator_id, 1);
    assert_eq!(shown.date, "2026-03-03");
    assert_eq!(shown.title, "Coffee meetup");
    assert_eq!(shown.description.as_deref(), Some("beans"));
    assert_eq!(shown.location, None);
    assert_eq!(shown.status, "pending");
    assert_eq!(shown.wish_place_id, Some(7));
    assert_eq!(shown.memory_image_base64, None);
    let parts: Vec<(Id, &str, &str, &str)> = shown
        .participants
        .iter()
        .map(|p| (p.user_id, p.username.as_str(), p.role.as_str(), p.response_status.as_str()))
        .collect();
    assert_eq!(
        parts,
        vec![
            (1, "ann", "owner", "accepted"),
            (2, "bob", "participant", "pending"),
            (4, "dan", "participant", "pending"),
        ]
    );
    assert!(db.busy(1, day(3, 3)));
    assert!(!db.busy(2, day(3, 3)));
    assert!(!db.busy(4, day(3, 3)));
}

#[test]
fn an_event_needs_no_guests() {
    let mut db = Db::new();
    let (_, shown) = db.run(create_event(auth(1), body(day(3, 3), &[1]))).unwrap();
    assert_eq!(shown.participants.len(), 1);
    assert_eq!(db.tables.user_events.len(), 1);
}

#[test]
fn guests_do_not_depend_on_order_or_repetition() {
    assert_eq!(guests_of(&vec![4, 2, 1, 2, 9], 1), vec![2, 4, 9]);
    assert_eq!(guests_of(&vec![9, 9, 4, 1, 1, 2], 1), vec![2, 4, 9]);
    assert_eq!(guests_of(&vec![1, 1], 1), Vec::<Id>::new());
    assert_eq!(guests_of(&vec![], 1), Vec::<Id>::new());
}

#[test]
fn making_an_event_is_refused_for_the_first_reason_in_turn() {
    let mut db = Db::new();
    let before = db.text();
    let mut wrong = body(day(3, 3), &[5]);
    wrong.date = "2026-02-30".to_string();
    wrong.title = "  ".to_string();
    assert_eq!(db.run(create_event(auth(1), wrong)).unwrap_err(), Refusal::InvalidDate);
    let mut wrong = body(day(3, 3), &[5]);
    wrong.title = " \t".to_string();
    assert_eq!(db.run(create_event(auth(1), wrong)).unwrap_err(), Refusal::EventTitleMissing);
    let refused = db.run(create_event(auth(1), body(day(3, 3), &[2, 5])));
    assert_eq!(refused.unwrap_err(), Refusal::GuestNotFriend);
    assert_eq!(db.text(), before);
    db.take_day(4, day(3, 3));
    let before = db.text();
    let refused = db.run(create_event(auth(1), body(day(3, 3), &[2, 4])));
    assert_eq!(refused.unwrap_err(), Refusal::GuestBusy);
    assert_eq!(db.text(), before);
    db.take_day(1, day(3, 3));
    let before = db.text();
    let refused = db.run(create_event(auth(1), body(day(3, 3), &[2, 4])));
    assert_eq!(refused.unwrap_err(), Refusal::DayReserved);
    assert_eq!(db.text(), before);
    assert!(db.run(create_event(auth(1), body(day(3, 4), &[2, 4]))).is_ok());
}

#[test]
fn an_event_is_made_altogether_or_not_at_all() {
    for at in 0..20 {
        let mut db = Db::new();
        let before = db.text();
        let result = db.run_failing(at, create_event(auth(1), body(day(3, 3), &[2, 4])));
        let made = !db.tables.events.is_empty();
        if made {
            assert_eq!(db.tables.user_events.len(), 3);
            assert_eq!(db.tables.busydays.len(), 1);
        } else {
            assert_eq!(db.text(), before);
            assert_eq!(result.unwrap_err(), Refusal::Internal);
        }
    }
}

#[test]
fn a_reservation_that_loses_a_race_is_a_conflict() {
    assert_eq!(
        map_db_constraint_error("violates unique constraint \"busydays\""),
        Refusal::DayReserved
    );
    assert_eq!(map_db_constraint_error("duplicate key value"), Refusal::DayReserved);
    assert_eq!(map_db_constraint_error("connection lost"), Refusal::Internal);
    let mut db = Db::new();
    let mut step = create_event(auth(1), body(day(3, 3), &[]));
    loop {
        match step {
            Step::Ask(machine, request) => {
                if matches!(request, Request::InsertBusyday(_)) {
                    db.take_day(1, day(3, 3));
                }
                let reply = db.ask(request);
                step = machine.resume(reply);
            }
            Step::Done(result) => {
                assert_eq!(result.unwrap_err(), Refusal::DayReserved);
                return;
            }
        }
    }
}

#[test]
fn an_event_is_confirmed_once_all_have_accepted() {
    let mut db = Db::new();
    let id = db.event_with(day(3, 3), &[2, 4]);
    let shown = db.run(accept_event(auth(2), id)).unwrap();
    assert_eq!(shown.status, "pending");
    assert!(!db.busy(2, day(3, 3)));
    assert_eq!(db.response(id, 2), UserEventResponse::Accepted);
    let shown = db.run(accept_event(auth(4), id)).unwrap();
    assert_eq!(shown.status, "confirmed");
    assert!(db.busy(4, day(3, 3)));
    assert!(!db.busy(2, day(3, 3)));
    assert_eq!(db.event(id).status, EventStatus::Confirmed);
}

#[test]
fn accepting_is_refused_where_it_cannot_be_done() {
    let mut db = Db::new();
    let id = db.event_with(day(3, 3), &[2]);
    assert_eq!(db.run(accept_event(auth(2), 9)).unwrap_err(), Refusal::EventNotFound);
    assert_eq!(db.run(accept_event(auth(4), id)).unwrap_err(), Refusal::NoPendingInvitation);
    assert_eq!(db.run(accept_event(auth(1), id)).unwrap_err(), Refusal::NoPendingInvitation);
    db.take_day(2, day(3, 3));
    let before = db.text();
    assert_eq!(db.run(accept_event(auth(2), id)).unwrap_err(), Refusal::DayReserved);
    assert_eq!(db.text(), before);
    db.tables.busydays.retain(|row| row.user_id != 2);
    db.run(accept_event(auth(2), id)).unwrap();
    assert_eq!(db.run(accept_event(auth(2), id)).unwrap_err(), Refusal::InvitationAnswered);
    db.tables.events[0].status = EventStatus::Canceled;
    assert_eq!(db.run(accept_event(auth(2), id)).unwrap_err(), Refusal::EventClosed);
    let id = db.event_with(day(3, 4), &[2, 4]);
    db.run(decline_event(auth(2), id)).unwrap();
    assert_eq!(db.run(accept_event(auth(2), id)).unwrap_err(), Refusal::InvitationAnswered);
    db.take_day(2, day(3, 4));
    assert_eq!(db.run(accept_event(auth(2), id)).unwrap_err(), Refusal::InvitationAnswered);
}

#[test]
fn an_invitation_is_accepted_altogether_or_not_at_all() {
    for at in 0..20 {
        let mut db = Db::new();
        let id = db.event_with(day(3, 3), &[2]);
        let before = db.text();
        let _ = db.run_failing(at, accept_event(auth(2), id));
        if db.text() != before {
            assert!(db.busy(2, day(3, 3)));
            assert_eq!(db.response(id, 2), UserEventResponse::Accepted);
            assert_eq!(db.event(id).status, EventStatus::Confirmed);
        }
    }
}

#[test]
fn declining_frees_the_day_and_reopens_the_event() {
    let mut db = Db::new();
    let id = db.event_with(day(3, 3), &[2, 4]);
    db.run(accept_event(auth(2), id)).unwrap();
    db.run(accept_event(auth(4), id)).unwrap();
    let code = db.run(decline_event(auth(4), id)).unwrap();
    assert_eq!(code, StatusCode::NoContent);
    assert_eq!(db.event(id).status, EventStatus::Pending);
    assert_eq!(db.response(id, 4), UserEventResponse::Declined);
    assert!(!db.busy(4, day(3, 3)));
    assert!(db.busy(1, day(3, 3)));
}

#[test]
fn the_only_participant_who_declines_cancels_the_event() {
    let mut db = Db::new();
    let id = db.event_with(day(3, 3), &[2]);
    let other = db.event_with(day(3, 4), &[]);
    db.run(decline_event(auth(2), id)).unwrap();
    assert_eq!(db.event(id).status, EventStatus::Canceled);
    assert!(!db.busy(1, day(3, 3)));
    assert!(db.busy(1, day(3, 4)));
    assert_eq!(db.event(other).status, EventStatus::Pending);
}

#[test]
fn the_last_participant_who_declines_cancels_the_event() {
    let mut db = Db::new();
    let id = db.event_with(day(3, 3), &[2, 4]);
    db.run(decline_event(auth(2), id)).unwrap();
    assert_eq!(db.event(id).status, EventStatus::Pending);
    assert!(db.busy(1, day(3, 3)));
    db.run(decline_event(auth(4), id)).unwrap();
    assert_eq!(db.event(id).status, EventStatus::Canceled);
    assert!(!db.busy(1, day(3, 3)));
    assert!(db.tables.busydays.is_empty());
}

#[test]
fn declining_is_refused_where_it_cannot_be_done() {
    let mut db = Db::new();
    let id = db.event_with(day(3, 3), &[2, 4]);
    assert_eq!(db.run(decline_event(auth(2), 9)).unwrap_err(), Refusal::EventNotFound);
    assert_eq!(db.run(decline_event(auth(1), id)).unwrap_err(), Refusal::NotParticipant);
    assert_eq!(db.run(decline_event(auth(5), id)).unwrap_err(), Refusal::NotParticipant);
    db.run(decline_event(auth(2), id)).unwrap();
    assert_eq!(db.run(decline_event(auth(2), id)).unwrap_err(), Refusal::NotParticipant);
    db.tables.events[0].status = EventStatus::Completed;
    assert_eq!(db.run(decline_event(auth(4), id)).unwrap_err(), Refusal::EventClosed);
}

#[test]
fn an_invitation_is_declined_altogether_or_not_at_all() {
    for at in 0..12 {
        let mut db = Db::new();
        let id = db.event_with(day(3, 3), &[2]);
        let before = db.text();
        let result = db.run_failing(at, decline_event(auth(2), id));
        if result.is_ok() {
            assert_eq!(db.event(id).status, EventStatus::Canceled);
            assert!(db.tables.busydays.is_empty());
        } else {
            assert_eq!(db.text(), before);
        }
    }
}

#[test]
fn canceling_removes_the_event_and_what_belongs_to_it() {
    let mut db = Db::new();
    let other = db.event_with(day(3, 4), &[2]);
    let before = db.text();
    let id = db.event_with(day(3, 3), &[2, 4]);
    db.run(accept_event(auth(2), id)).unwrap();
    assert_eq!(db.run(cancel_event(auth(1), id)).unwrap(), StatusCode::NoContent);
    assert_eq!(db.text(), before);
    assert_eq!(db.event(other).status, EventStatus::Pending);
}

#[test]
fn canceling_gives_back_what_creating_and_answering_changed() {
    let mut db = Db::new();
    db.event_with(day(3, 4), &[2]);
    let before = db.text();
    let id = db.event_with(day(3, 3), &[2, 4]);
    db.run(accept_event(auth(4), id)).unwrap();
    db.run(accept_event(auth(2), id)).unwrap();
    db.run(decline_event(auth(4), id)).unwrap();
    db.run(decline_event(auth(2), id)).unwrap();
    assert_eq!(db.event(id).status, EventStatus::Canceled);
    assert_eq!(db.run(cancel_event(auth(1), id)).unwrap(), StatusCode::NoContent);
    assert_eq!(db.text(), before);
}

#[test]
fn canceling_is_refused_where_it_cannot_be_done() {
    let mut db = Db::new();
    let id = db.event_with(day(3, 3), &[2]);
    assert_eq!(db.run(cancel_event(auth(2), id)).unwrap_err(), Refusal::EventMissing);
    assert_eq!(db.run(cancel_event(auth(1), 9)).unwrap_err(), Refusal::EventMissing);
    db.tables.events[0].status = EventStatus::Completed;
    assert_eq!(db.run(cancel_event(auth(1), id)).unwrap_err(), Refusal::EventCompleted);
    db.tables.events[0].status = EventStatus::Canceled;
    assert!(db.run(cancel_event(auth(1), id)).is_ok());
}

#[test]
fn an_event_is_canceled_altogether_or_not_at_all() {
    for at in 0..10 {
        let mut db = Db::new();
        let id = db.event_with(day(3, 3), &[2]);
        let before = db.text();
        if db.run_failing(at, cancel_event(auth(1), id)).is_ok() {
            assert!(db.tables.events.is_empty());
            assert!(db.tables.user_events.is_empty());
            assert!(db.tables.busydays.is_empty());
        } else {
            assert_eq!(db.text(), before);
        }
    }
}

fn image(text: &str) -> FinishEventBody {
    FinishEventBody { memory_image_base64: text.to_string() }
}

#[test]
fn an_event_is_completed_with_an_image_on_its_day_or_later() {
    let mut db = Db::new();
    let id = db.event_with(day(3, 3), &[2]);
    let early = db.run(finish_event_on(auth(1), id, image("aGk="), day(3, 2)));
    assert_eq!(early.unwrap_err(), Refusal::EventInFuture);
    let bare = db.run(finish_event_on(auth(1), id, image(" "), day(3, 3)));
    assert_eq!(bare.unwrap_err(), Refusal::MemoryImageMissing);
    let strange = db.run(finish_event_on(auth(2), id, image("aGk="), day(3, 3)));
    assert_eq!(strange.unwrap_err(), Refusal::NotEventCreator);
    let shown = db.run(finish_event_on(auth(1), id, image("aGk="), day(3, 3))).unwrap();
    assert_eq!(shown.status, "completed");
    assert_eq!(shown.memory_image_base64.as_deref(), Some("aGk="));
    let again = db.run(finish_event_on(auth(1), id, image("aGk="), day(3, 4)));
    assert_eq!(again.unwrap_err(), Refusal::EventClosed);
}

#[test]
fn members_see_an_event_and_others_do_not() {
    let mut db = Db::new();
    let id = db.event_with(day(3, 3), &[2]);
    let shown = db.run(get_event(auth(2), id)).unwrap();
    assert_eq!(shown.id, id);
    assert_eq!(shown.participants.len(), 2);
    assert_eq!(db.run(get_event(auth(4), id)).unwrap_err(), Refusal::EventForbidden);
    assert_eq!(db.run(get_event(auth(1), 9)).unwrap_err(), Refusal::EventMissing);
    let shown = db.run(get_event_participants(auth(1), id)).unwrap();
    assert_eq!(shown.iter().map(|p| p.user_id).collect::<Vec<Id>>(), vec![1, 2]);
    assert_eq!(db.run(get_event_participants(auth(4), id)).unwrap_err(), Refusal::EventForbidden);
    assert_eq!(db.run(get_event_participants(auth(1), 9)).unwrap_err(), Refusal::EventMissing);
    assert_eq!(db.run_failing(0, get_event(auth(2), id)).unwrap_err(), Refusal::Internal);
    assert_eq!(db.run_failing(2, get_event(auth(2), id)).unwrap_err(), Refusal::EventNotFound);
}

#[test]
fn a_participant_whose_user_is_unknown_is_left_out() {
    let mut db = Db::new();
    let id = db.event_with(day(3, 3), &[2]);
    db.tables.users.retain(|user| user.id != 2);
    let shown = db.run(get_event_participants(auth(1), id)).unwrap();
    assert_eq!(shown.iter().map(|p| p.user_id).collect::<Vec<Id>>(), vec![1]);
    let shown = db.run_failing(3, get_event_participants(auth(1), id)).unwrap();
    assert!(shown.is_empty());
}

fn scope(scope: EventScope) -> EventScopeQuery {
    EventScopeQuery { scope: Some(scope) }
}

#[test]
fn events_are_listed_by_scope() {
    let mut db = Db::new();
    let late = db.event_with(day(5, 5), &[2]);
    let past = db.event_with(day(1, 1), &[2]);
    let older = db.event_with(day(1, 2), &[]);
    let today = day(3, 3);
    let now = db.event_with(today, &[2]);
    let created = db.run(get_events_on(auth(1), scope(EventScope::Created), today)).unwrap();
    assert_eq!(ids(&created), vec![past, older, now, late]);
    let upcoming = db.run(get_events_on(auth(1), scope(EventScope::Upcoming), today)).unwrap();
    assert_eq!(ids(&upcoming), vec![now, late]);
    let default = db.run(get_events_on(auth(1), EventScopeQuery { scope: None }, today)).unwrap();
    assert_eq!(ids(&default), vec![now, late]);
    let gone = db.run(get_events_on(auth(1), scope(EventScope::Past), today)).unwrap();
    assert_eq!(ids(&gone), vec![older, past]);
    let invited = db.run(get_events_on(auth(2), scope(EventScope::Invited), today)).unwrap();
    assert_eq!(ids(&invited), vec![past, now, late]);
    assert!(db.run(get_events_on(auth(1), scope(EventScope::Invited), today)).unwrap().is_empty());
    assert!(db.run(get_events_on(auth(2), scope(EventScope::Upcoming), today)).unwrap().is_empty());
    db.run(accept_event(auth(2), late)).unwrap();
    let upcoming = db.run(get_events_on(auth(2), scope(EventScope::Upcoming), today)).unwrap();
    assert_eq!(ids(&upcoming), vec![late]);
    assert_eq!(db.run(get_events(auth(1), scope(EventScope::Created))).unwrap().len(), 4);
    let failed = db.run_failing(1, get_events_on(auth(1), scope(EventScope::Upcoming), today));
    assert_eq!(failed.unwrap_err(), Refusal::Internal);
}

#[test]
fn canceled_events_are_not_upcoming() {
    let mut db = Db::new();
    let id = db.event_with(day(5, 5), &[2]);
    db.run(decline_event(auth(2), id)).unwrap();
    let upcoming = db.run(get_events_on(auth(1), scope(EventScope::Upcoming), day(3, 3))).unwrap();
    assert!(upcoming.is_empty());
    let invited = db.run(get_events_on(auth(2), scope(EventScope::Invited), day(3, 3))).unwrap();
    assert!(invited.is_empty());
}

#[test]
fn pending_and_waiting_events_are_listed() {
    let mut db = Db::new();
    let first = db.event_with(day(5, 5), &[2]);
    let second = db.event_with(day(4, 4), &[2, 4]);
    db.run(accept_event(auth(2), first)).unwrap();
    assert_eq!(ids(&db.run(get_pending_events(auth(1))).unwrap()), vec![second]);
    assert!(db.run(get_pending_events(auth(2))).unwrap().is_empty());
    assert_eq!(ids(&db.run(get_waiting_events_on(auth(2), day(4, 4))).unwrap()), vec![second]);
    assert!(db.run(get_waiting_events_on(auth(2), day(4, 5))).unwrap().is_empty());
    db.run(decline_event(auth(2), second)).unwrap();
    assert!(db.run(get_waiting_events_on(auth(2), day(3, 3))).unwrap().is_empty());
    assert_eq!(ids(&db.run(get_waiting_events_on(auth(4), day(3, 3))).unwrap()), vec![second]);
}

#[test]
fn active_events_are_accepted_by_all_and_past_ones_are_closed() {
    let mut db = Db::new();
    let agreed_past = db.event_with(day(1, 1), &[2]);
    db.run(accept_event(auth(2), agreed_past)).unwrap();
    let open_past = db.event_with(day(1, 2), &[2]);
    let agreed = db.event_with(day(5, 5), &[2]);
    db.run(accept_event(auth(2), agreed)).unwrap();
    let open = db.event_with(day(5, 6), &[2]);
    let active = db.run(get_active_events_on(auth(1), day(3, 3))).unwrap();
    assert_eq!(ids(&active), vec![agreed]);
    assert_eq!(db.event(agreed_past).status, EventStatus::Completed);
    assert_eq!(db.event(open_past).status, EventStatus::Canceled);
    assert_eq!(db.event(agreed).status, EventStatus::Confirmed);
    assert_eq!(db.event(open).status, EventStatus::Pending);
    assert!(db.run(get_active_events_on(auth(5), day(3, 3))).unwrap().is_empty());
}

#[test]
fn events_of_others_are_not_closed() {
    let mut db = Db::new();
    let id = db.event_with(day(1, 1), &[2]);
    let before = db.text();
    assert!(db.run(get_active_events_on(auth(4), day(3, 3))).unwrap().is_empty());
    assert_eq!(db.text(), before);
    db.run(get_active_events_on(auth(2), day(3, 3))).unwrap();
    assert_eq!(db.event(id).status, EventStatus::Canceled);
}

#[test]
fn people_are_told_when_they_are_free() {
    let mut db = Db::new();
    db.take_day(1, day(3, 3));
    assert!(!db.run(check_user_availability(auth(1), on("2026-03-03"))).unwrap().is_available);
    assert!(db.run(check_user_availability(auth(1), on("2026-03-04"))).unwrap().is_available);
    assert!(db.run(check_user_availability(auth(2), on("2026-03-03"))).unwrap().is_available);
    let refused = db.run(check_user_availability(auth(1), on("3.3.26")));
    assert_eq!(refused.unwrap_err(), Refusal::InvalidDate);
}

#[test]
fn people_are_told_which_friends_are_free() {
    let mut db = Db::new();
    let free = db.run(check_friends_availability(auth(1), on("2026-03-03"))).unwrap();
    assert_eq!(people(&free.available_friends), vec![2, 3, 4]);
    db.take_day(3, day(3, 3));
    db.take_day(5, day(3, 3));
    db.take_day(2, day(3, 4));
    let free = db.run(check_friends_availability(auth(1), on("2026-03-03"))).unwrap();
    assert_eq!(people(&free.available_friends), vec![2, 4]);
    let free = db.run(check_friends_availability(auth(3), on("2026-03-03"))).unwrap();
    assert_eq!(people(&free.available_friends), vec![1]);
    let free = db.run(check_friends_availability(auth(5), on("2026-03-03"))).unwrap();
    assert!(free.available_friends.is_empty());
    let refused = db.run(check_friends_availability(auth(1), on("")));
    assert_eq!(refused.unwrap_err(), Refusal::InvalidDate);
}

fn ask_busy(id: Id, date: &str) -> IsBusyRequest {
    IsBusyRequest { id, date: date.to_string() }
}

#[test]
fn free_friends_come_by_username() {
    let mut db = Db::new();
    db.tables.users[1].username = "zoe".to_string();
    db.tables.users[3].username = "abe".to_string();
    let free = db.run(check_friends_availability(auth(1), on("2026-03-03"))).unwrap();
    let names: Vec<&str> = free.available_friends.iter().map(|u| u.username.as_str()).collect();
    let mut sorted = names.clone();
    sorted.sort();
    assert_eq!(names, sorted);
    assert_eq!((names[0], names[2]), ("abe", "zoe"));
}

#[test]
fn answers_on_taken_days_agree() {
    let mut db = Db::new();
    db.take_day(1, day(3, 3));
    db.take_day(3, day(3, 3));
    for date in ["2026-03-03", "2026-03-04"] {
        let busy = db.run(is_busy(auth(1), ask_busy(1, date))).unwrap();
        let own = db.run(check_user_availability(auth(1), on(date))).unwrap();
        assert_eq!(own.is_available, !busy);
        let free = db.run(check_friends_availability(auth(1), on(date))).unwrap();
        for friend in [2, 3, 4] {
            let busy = db.run(is_busy(auth(1), ask_busy(friend, date))).unwrap();
            let shown = free.available_friends.iter().any(|user| user.id == friend);
            assert_eq!(shown, !busy);
        }
    }
    assert_eq!(db.run(is_busy(auth(1), ask_busy(2, "x"))).unwrap_err(), Refusal::InvalidDate);
    let refused = db.run(check_friends_availability(auth(1), on("x")));
    assert_eq!(refused.unwrap_err(), Refusal::InvalidDate);
}

#[test]
fn upcoming_and_past_events_are_all_that_were_accepted() {
    let mut db = Db::new();
    let today = day(3, 3);
    let past = db.event_with(day(3, 2), &[2]);
    let now = db.event_with(today, &[2]);
    let canceled_past = db.event_with(day(1, 1), &[2]);
    let canceled = db.event_with(day(4, 4), &[2]);
    db.run(decline_event(auth(2), canceled_past)).unwrap();
    db.run(decline_event(auth(2), canceled)).unwrap();
    let upcoming = db.run(get_events_on(auth(1), scope(EventScope::Upcoming), today)).unwrap();
    let gone = db.run(get_events_on(auth(1), scope(EventScope::Past), today)).unwrap();
    assert_eq!(ids(&upcoming), vec![now]);
    assert_eq!(ids(&gone), vec![past, canceled_past]);
}

#[test]
fn an_event_and_its_people_agree() {
    let mut db = Db::new();
    let id = db.event_with(day(3, 3), &[2, 4]);
    db.run(accept_event(auth(2), id)).unwrap();
    let event = db.run(get_event(auth(2), id)).unwrap();
    let alone = db.run(get_event_participants(auth(2), id)).unwrap();
    assert_eq!(alone.len(), 3);
    assert_eq!(format!("{:?}", event.participants), format!("{:?}", alone));
    let refused = db.run(get_event(auth(5), id)).unwrap_err();
    assert_eq!(db.run(get_event_participants(auth(5), id)).unwrap_err(), refused);
}

#[test]
fn friends_are_told_whether_a_day_is_taken() {
    let mut db = Db::new();
    db.take_day(1, day(3, 3));
    assert!(db.run(is_busy(auth(1), ask_busy(1, "2026-03-03"))).unwrap());
    assert!(!db.run(is_busy(auth(1), ask_busy(1, "2026-03-04"))).unwrap());
    assert!(db.run(is_busy(auth(3), ask_busy(1, "2026-03-03"))).unwrap());
    let refused = db.run(is_busy(auth(5), ask_busy(1, "2026-03-03")));
    assert_eq!(refused.unwrap_err(), Refusal::AvailabilityForbidden);
    let refused = db.run(is_busy(auth(5), ask_busy(1, "never")));
    assert_eq!(refused.unwrap_err(), Refusal::AvailabilityForbidden);
    let refused = db.run(is_busy(auth(2), ask_busy(1, "never")));
    assert_eq!(refused.unwrap_err(), Refusal::InvalidDate);
    let failed = db.run_failing(0, is_busy(auth(2), ask_busy(1, "2026-03-03")));
    assert_eq!(failed.unwrap_err(), Refusal::Internal);
}

fn span(from: &str, to: &str) -> CalendarQuery {
    CalendarQuery { from: from.to_string(), to: to.to_string() }
}

fn busy_dates(calendar: &CalendarResponse) -> Vec<&str> {
    calendar.busy_days.iter().map(|busy| busy.date.as_str()).collect()
}

#[test]
fn a_calendar_shows_busy_days_and_invitations() {
    let mut db = Db::new();
    let late = db.event_with(day(5, 6), &[2]);
    let early = db.event_with(day(5, 5), &[2]);
    let taken = db.event_with(day(4, 4), &[2]);
    db.event_with(day(7, 7), &[2]);
    db.run(accept_event(auth(2), taken)).unwrap();
    db.take_day(2, day(4, 1));
    let shown = db.run(get_my_calendar(auth(2), span("2026-04-01", "2026-05-31"))).unwrap();
    assert_eq!(shown.from, "2026-04-01");
    assert_eq!(shown.to, "2026-05-31");
    assert_eq!(busy_dates(&shown), vec!["2026-04-01", "2026-04-04"]);
    assert_eq!(shown.busy_days[0].event_id, None);
    assert_eq!(shown.busy_days[1].event_id, Some(taken));
    assert_eq!(shown.busy_days[1].user_id, 2);
    let invites: Vec<(Id, &str)> = shown
        .pending_invites
        .iter()
        .map(|invite| (invite.event_id, invite.date.as_str()))
        .collect();
    assert_eq!(invites, vec![(early, "2026-05-05"), (late, "2026-05-06")]);
}

fn invites(calendar: &CalendarResponse) -> Vec<(Id, String)> {
    let mut found: Vec<(Id, String)> =
        calendar.pending_invites.iter().map(|i| (i.event_id, i.date.clone())).collect();
    found.sort();
    found
}

#[test]
fn a_calendar_is_its_two_halves() {
    let mut db = Db::new();
    for (month, date) in [(2, 27), (2, 28), (3, 1), (3, 2)] {
        db.event_with(day(month, date), &[2]);
        db.take_day(2, day(month, date));
    }
    let first = db.run(get_my_calendar(auth(2), span("2026-02-01", "2026-02-28"))).unwrap();
    let second = db.run(get_my_calendar(auth(2), span("2026-03-01", "2026-03-31"))).unwrap();
    let whole = db.run(get_my_calendar(auth(2), span("2026-02-01", "2026-03-31"))).unwrap();
    assert_eq!(busy_dates(&first), vec!["2026-02-27", "2026-02-28"]);
    assert_eq!(busy_dates(&second), vec!["2026-03-01", "2026-03-02"]);
    assert_eq!(busy_dates(&whole), [busy_dates(&first), busy_dates(&second)].concat());
    let past = [first.past_events.clone(), second.past_events.clone()].concat();
    assert_eq!(whole.past_events, past);
    assert_eq!(invites(&first).len(), 2);
    let mut both = [invites(&first), invites(&second)].concat();
    both.sort();
    assert_eq!(invites(&whole), both);
}

#[test]
fn a_friend_sees_the_calendar_that_its_owner_sees() {
    let mut db = Db::new();
    db.event_with(day(4, 3), &[2]);
    db.event_with(day(4, 5), &[2]);
    db.take_day(2, day(4, 1));
    db.take_day(2, day(4, 7));
    let own = db.run(get_my_calendar(auth(2), span("2026-04-01", "2026-04-30"))).unwrap();
    let seen = db.run(get_user_calendar(auth(1), 2, span("2026-04-01", "2026-04-30"))).unwrap();
    assert_eq!(busy_dates(&own), vec!["2026-04-01", "2026-04-07"]);
    assert_eq!(busy_dates(&seen), busy_dates(&own));
    assert_eq!(seen.past_events, own.past_events);
    assert_eq!((&seen.from, &seen.to), (&own.from, &own.to));
    assert_eq!(invites(&own).len(), 2);
    assert_eq!(invites(&seen), invites(&own));
    for (from, to) in [("2026-04-02", "2026-04-01"), ("soon", "2026-04-01")] {
        let own = db.run(get_my_calendar(auth(2), span(from, to))).unwrap_err();
        assert_eq!(db.run(get_user_calendar(auth(1), 2, span(from, to))).unwrap_err(), own);
        let refused = db.run(get_user_calendar(auth(5), 2, span(from, to)));
        assert_eq!(refused.unwrap_err(), Refusal::CalendarForbidden);
    }
}

#[test]
fn friends_see_a_calendar_and_others_do_not() {
    let mut db = Db::new();
    db.event_with(day(4, 4), &[]);
    let shown = db.run(get_user_calendar(auth(2), 1, span("2026-04-01", "2026-04-30"))).unwrap();
    assert_eq!(busy_dates(&shown), vec!["2026-04-04"]);
    assert!(shown.pending_invites.is_empty());
    let shown = db.run(get_user_calendar(auth(1), 1, span("2026-04-05", "2026-04-30"))).unwrap();
    assert!(shown.busy_days.is_empty());
    let refused = db.run(get_user_calendar(auth(5), 1, span("2026-04-01", "2026-04-30")));
    assert_eq!(refused.unwrap_err(), Refusal::CalendarForbidden);
    let refused = db.run(get_user_calendar(auth(2), 1, span("2026-04-02", "2026-04-01")));
    assert_eq!(refused.unwrap_err(), Refusal::StartAfterEnd);
    let refused = db.run(get_my_calendar(auth(2), span("2026-04-02", "soon")));
    assert_eq!(refused.unwrap_err(), Refusal::InvalidDate);
}

#[test]
fn busy_days_before_today_are_past() {
    let mut db = Db::new();
    db.take_day(1, day(4, 4));
    db.take_day(1, day(4, 5));
    db.take_day(1, day(4, 6));
    let step = BuildCalendar::with_busy_days(
        1,
        day(4, 1),
        day(4, 30),
        &db.tables.busydays.clone(),
        day(4, 6),
    );
    let shown = db.run(step).unwrap();
    assert_eq!(busy_dates(&shown), vec!["2026-04-04", "2026-04-05", "2026-04-06"]);
    assert_eq!(shown.past_events, vec!["2026-04-04", "2026-04-05"]);
}

#[test]
fn friendship_is_offered_accepted_and_ended() {
    let mut db = Db::new();
    let code = db.run(friend_request(auth(5), FriendIdBody { friend_id: 1 })).unwrap();
    assert_eq!(code, StatusCode::Created);
    assert_eq!(people(&db.run(get_incoming(auth(1))).unwrap()), vec![5]);
    assert_eq!(people(&db.run(get_outgoing(auth(5))).unwrap()), vec![1]);
    assert!(db.run(get_friends(auth(5))).unwrap().is_empty());
    assert_eq!(db.run(remove_friend(auth(1), 5)).unwrap_err(), Refusal::FriendshipMissing);
    let wrong_way = db.run(accept_friend_request(auth(5), 1));
    assert_eq!(wrong_way.unwrap_err(), Refusal::FriendRequestMissing);
    assert_eq!(db.run(accept_friend_request(auth(1), 5)).unwrap(), StatusCode::NoContent);
    assert_eq!(people(&db.run(get_friends(auth(5))).unwrap()), vec![1]);
    assert_eq!(people(&db.run(get_friends(auth(1))).unwrap()), vec![2, 3, 4, 5]);
    assert!(db.run(get_incoming(auth(1))).unwrap().is_empty());
    assert!(db.run(get_outgoing(auth(5))).unwrap().is_empty());
    assert_eq!(db.run(remove_friend(auth(1), 5)).unwrap(), StatusCode::NoContent);
    assert!(db.run(get_friends(auth(5))).unwrap().is_empty());
    assert_eq!(people(&db.run(get_friends(auth(1))).unwrap()), vec![2, 3, 4]);
    assert_eq!(db.run(remove_friend(auth(5), 1)).unwrap_err(), Refusal::FriendshipMissing);
}

#[test]
fn an_offer_is_rejected() {
    let mut db = Db::new();
    let before = db.text();
    db.run(friend_request(auth(5), FriendIdBody { friend_id: 1 })).unwrap();
    assert_eq!(db.run(reject_friend_request(auth(1), 5)).unwrap(), StatusCode::NoContent);
    assert_eq!(db.text(), before);
    let again = db.run(reject_friend_request(auth(1), 5));
    assert_eq!(again.unwrap_err(), Refusal::FriendRequestMissing);
}

#[test]
fn nobody_is_a_friend_of_oneself() {
    let mut db = Db::new();
    let refused = db.run(friend_request(auth(1), FriendIdBody { friend_id: 1 }));
    assert_eq!(refused.unwrap_err(), Refusal::BefriendSelf);
    assert_eq!(db.run(remove_friend(auth(1), 1)).unwrap_err(), Refusal::RemoveSelf);
    assert_eq!(db.run(accept_friend_request(auth(1), 1)).unwrap_err(), Refusal::AcceptSelf);
    assert_eq!(db.run(reject_friend_request(auth(1), 1)).unwrap_err(), Refusal::RejectSelf);
}

#[test]
fn profiles_are_shown_and_updated() {
    let mut db = Db::new();
    let shown = db.run(get_me(auth(2))).unwrap();
    assert_eq!((shown.id, shown.username.as_str()), (2, "bob"));
    let shown = db
        .run(update_me(
            auth(2),
            UpdateUserRequestBody {
                username: None,
                avatar_url: Some("a.png".to_string()),
                bio: Some("hi".to_string()),
            },
        ))
        .unwrap();
    assert_eq!(shown.username, "bob");
    assert_eq!(shown.avatar_url.as_deref(), Some("a.png"));
    let shown = db
        .run(update_me(
            auth(2),
            UpdateUserRequestBody {
                username: Some("rob".to_string()),
                avatar_url: None,
                bio: None,
            },
        ))
        .unwrap();
    assert_eq!(shown.username, "rob");
    assert_eq!(shown.avatar_url.as_deref(), Some("a.png"));
    assert_eq!(shown.bio.as_deref(), Some("hi"));
    assert_eq!(db.run(get_user_by_id(2)).unwrap().username, "rob");
}

fn no_changes() -> UpdateUserRequestBody {
    UpdateUserRequestBody { username: None, avatar_url: None, bio: None }
}

#[test]
fn profiles_that_cannot_be_had_are_refused() {
    let mut db = Db::new();
    assert_eq!(db.run(get_me(auth(9))).unwrap_err(), Refusal::OwnProfileMissing);
    assert_eq!(db.run(get_user_by_id(9)).unwrap_err(), Refusal::ProfileMissing);
    assert_eq!(db.run(update_me(auth(9), no_changes())).unwrap_err(), Refusal::OwnProfileMissing);
    assert_eq!(db.run_failing(0, get_me(auth(1))).unwrap_err(), Refusal::OwnProfileUnavailable);
    assert_eq!(db.run_failing(0, get_user_by_id(1)).unwrap_err(), Refusal::ProfileUnavailable);
    let failed = db.run_failing(0, update_me(auth(1), no_changes()));
    assert_eq!(failed.unwrap_err(), Refusal::OwnProfileUnavailable);
    let failed = db.run_failing(1, update_me(auth(1), no_changes()));
    assert_eq!(failed.unwrap_err(), Refusal::OwnProfileNotUpdated);
}

fn named(username: &str) -> UserNameSearchQuery {
    UserNameSearchQuery { username: Some(username.to_string()) }
}

fn names(users: &[UserResponse]) -> Vec<&str> {
    users.iter().map(|user| user.username.as_str()).collect()
}

#[test]
fn users_are_found_by_the_beginning_of_their_names() {
    let mut db = Db::new();
    db.tables.users[4].username = "anna".to_string();
    assert_eq!(names(&db.run(search_users(named("an"))).unwrap()), vec!["ann", "anna"]);
    assert_eq!(names(&db.run(search_users(named("anna"))).unwrap()), vec!["anna"]);
    assert!(db.run(search_users(named("nn"))).unwrap().is_empty());
    assert!(db.run(search_users(named("AN"))).unwrap().is_empty());
    assert!(db.run(search_users(named("%n"))).unwrap().is_empty());
    db.tables.users[3].username = "a_1".to_string();
    db.tables.users[2].username = "ab1".to_string();
    assert_eq!(names(&db.run(search_users(named("a_"))).unwrap()), vec!["a_1"]);
    db.tables.users[3].username = "50% \\off".to_string();
    assert_eq!(names(&db.run(search_users(named("50% \\"))).unwrap()), vec!["50% \\off"]);
    assert!(db.run(search_users(named("50_"))).unwrap().is_empty());
    assert_eq!(db.run(search_users(named(" "))).unwrap_err(), Refusal::SearchTextMissing);
    let nothing = UserNameSearchQuery { username: None };
    assert_eq!(db.run(search_users(nothing)).unwrap_err(), Refusal::SearchTextMissing);
    assert_eq!(db.run_failing(0, search_users(named("a"))).unwrap_err(), Refusal::SearchFailed);
}

fn wish(title: &str) -> CreateWishPlaceBody {
    CreateWishPlaceBody {
        title: title.to_string(),
        description: Some("tall".to_string()),
        location: None,
        link: None,
    }
}

fn unchanged() -> UpdateWishPlaceBody {
    UpdateWishPlaceBody { title: None, description: None, location: None, link: None, status: None }
}

#[test]
fn wish_places_are_made_and_shown_to_friends() {
    let mut db = Db::new();
    let (code, first) = db.run(create_wish_place(auth(1), wish("Tower"))).unwrap();
    assert_eq!(code, StatusCode::Created);
    assert_eq!(first.user_id, 1);
    assert_eq!(first.title, "Tower");
    assert_eq!(first.description.as_deref(), Some("tall"));
    assert_eq!(first.status, "active");
    assert_eq!(first.visited_event_id, None);
    let (_, second) = db.run(create_wish_place(auth(1), wish("Lake"))).unwrap();
    let shown = db.run(get_wish_places(auth(1), WishPlaceQuery { user_id: 1 })).unwrap();
    assert_eq!(shown.iter().map(|p| p.id).collect::<Vec<Id>>(), vec![second.id, first.id]);
    let shown = db.run(get_wish_places(auth(3), WishPlaceQuery { user_id: 1 })).unwrap();
    assert_eq!(shown.len(), 2);
    let refused = db.run(get_wish_places(auth(5), WishPlaceQuery { user_id: 1 }));
    assert_eq!(refused.unwrap_err(), Refusal::WishPlacesForbidden);
    let refused = db.run(create_wish_place(auth(1), wish("\n")));
    assert_eq!(refused.unwrap_err(), Refusal::WishPlaceTitleMissing);
}

#[test]
fn a_wish_place_keeps_what_is_not_changed() {
    let mut db = Db::new();
    let id = db.run(create_wish_place(auth(1), wish("Tower"))).unwrap().1.id;
    let mut change = unchanged();
    change.link = Some("x.org".to_string());
    let shown = db.run(update_wish_place(auth(1), id, change)).unwrap();
    assert_eq!(shown.title, "Tower");
    assert_eq!(shown.description.as_deref(), Some("tall"));
    assert_eq!(shown.link.as_deref(), Some("x.org"));
    assert_eq!(shown.status, "active");
    let refused = db.run(update_wish_place(auth(1), id, unchanged()));
    assert_eq!(refused.unwrap_err(), Refusal::NothingToUpdate);
    let mut change = unchanged();
    change.title = Some(" ".to_string());
    let refused = db.run(update_wish_place(auth(1), id, change));
    assert_eq!(refused.unwrap_err(), Refusal::WishPlaceTitleEmpty);
    let refused = db.run(update_wish_place(auth(2), id, unchanged()));
    assert_eq!(refused.unwrap_err(), Refusal::WishPlaceMissing);
}

#[test]
fn a_wish_place_is_visited_at_an_event_of_its_owner() {
    let mut db = Db::new();
    let id = db.run(create_wish_place(auth(1), wish("Tower"))).unwrap().1.id;
    let event_id = db.event_with(day(3, 3), &[2]);
    let theirs = db.run(create_event(auth(2), body(day(4, 4), &[]))).unwrap().1.id;
    let refused = db.run(visit_wish_place(auth(2), id, VisitWishPlaceBody { event_id }));
    assert_eq!(refused.unwrap_err(), Refusal::WishPlaceMissing);
    let refused = db.run(visit_wish_place(auth(1), id, VisitWishPlaceBody { event_id: 9 }));
    assert_eq!(refused.unwrap_err(), Refusal::EventNotFound);
    let refused = db.run(visit_wish_place(auth(1), id, VisitWishPlaceBody { event_id: theirs }));
    assert_eq!(refused.unwrap_err(), Refusal::VisitForbidden);
    let shown = db.run(visit_wish_place(auth(1), id, VisitWishPlaceBody { event_id })).unwrap();
    assert_eq!(shown.status, "visited");
    assert_eq!(shown.visited_event_id, Some(event_id));
    let mut change = unchanged();
    change.status = Some(WishPlaceStatusDto::Visited);
    let shown = db.run(update_wish_place(auth(1), id, change)).unwrap();
    assert_eq!(shown.visited_event_id, Some(event_id));
    let mut change = unchanged();
    change.status = Some(WishPlaceStatusDto::Active);
    let shown = db.run(update_wish_place(auth(1), id, change)).unwrap();
    assert_eq!(shown.status, "active");
    assert_eq!(shown.visited_event_id, None);
}

#[test]
fn a_wish_place_is_archived_by_its_owner() {
    let mut db = Db::new();
    let id = db.run(create_wish_place(auth(1), wish("Tower"))).unwrap().1.id;
    assert_eq!(db.run(delete_wish_place(auth(2), id)).unwrap_err(), Refusal::WishPlaceMissing);
    assert_eq!(db.run(delete_wish_place(auth(1), id)).unwrap(), StatusCode::NoContent);
    assert_eq!(db.tables.wish_places[0].status, WishPlaceStatus::Archived);
    let shown = db.run(get_wish_places(auth(1), WishPlaceQuery { user_id: 1 })).unwrap();
    assert_eq!(shown[0].status, "archived");
}

#[test]
fn showing_and_listing_change_nothing() {
    let mut db = Db::new();
    let id = db.event_with(day(3, 3), &[2]);
    let before = db.text();
    db.run(get_event(auth(1), id)).unwrap();
    db.run(get_events_on(auth(1), scope(EventScope::Past), day(9, 9))).unwrap();
    db.run(get_pending_events(auth(1))).unwrap();
    db.run(get_my_calendar(auth(1), span("2026-01-01", "2026-12-31"))).unwrap();
    db.run(check_friends_availability(auth(1), on("2026-03-03"))).unwrap();
    db.run(get_friends(auth(1))).unwrap();
    db.run(search_users(named("a"))).unwrap();
    assert_eq!(db.text(), before);
    assert_eq!(db.tables.user_events[0].role, UserEventRole::Owner);
}

#[test]
fn declining_gives_back_the_day_that_accepting_took() {
    let mut db = Db::new();
    let id = db.event_with(day(3, 3), &[2, 4]);
    db.run(accept_event(auth(4), id)).unwrap();
    let days = format!("{:?}", db.tables.busydays);
    db.run(accept_event(auth(2), id)).unwrap();
    assert_ne!(format!("{:?}", db.tables.busydays), days);
    db.run(decline_event(auth(2), id)).unwrap();
    assert_eq!(format!("{:?}", db.tables.busydays), days);
}

#[test]
fn ending_a_friendship_leaves_no_trace_of_it() {
    let mut db = Db::new();
    let before = db.text();
    db.run(friend_request(auth(5), FriendIdBody { friend_id: 2 })).unwrap();
    db.run(accept_friend_request(auth(2), 5)).unwrap();
    assert_ne!(db.text(), before);
    db.run(remove_friend(auth(5), 2)).unwrap();
    assert_eq!(db.text(), before);
}

#[test]
fn every_request_ends_whatever_fails() {
    for at in 0..30 {
        let mut db = Db::new();
        let id = db.event_with(day(1, 1), &[2, 4]);
        db.event_with(day(5, 5), &[2]);
        let _ = db.run_failing(at, get_active_events_on(auth(1), day(3, 3)));
        assert!(db.asked <= 30);
        assert_ne!(db.event(id).status, EventStatus::Confirmed);
    }
}
