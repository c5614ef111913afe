use cis_client::batch::check_profile_exists;
use cis_client::batch::Batch;
use cis_client::batch::CisClientTrait;
use cis_client::batch::NextPage;
use cis_client::batch::ProfileIter;
use cis_client::error::CisClientError;
use cis_client::error::ProfileError;
use std::cell::RefCell;
use std::rc::Rc;

/// A listing of `count` pages of one profile each; the cursor of a page is
/// the number of pages left after it.
struct CisClientFaker {
    count: usize,
    fail_at: Option<usize>,
    requests: Rc<RefCell<Vec<Option<String>>>>,
    filters: Rc<RefCell<Vec<Option<String>>>>,
}

fn faker(count: usize) -> CisClientFaker {
    CisClientFaker { count, fail_at: None, requests: Rc::new(RefCell::new(vec![])), filters: Rc::new(RefCell::new(vec![])) }
}

impl CisClientTrait for CisClientFaker {
    type Profile = u32;

    fn get_batch(
        &self,
        pagination_token: &Option<NextPage>,
        filter: &Option<String>,
    ) -> Result<Batch<u32>, CisClientError> {
        self.filters.borrow_mut().push(filter.clone());
        self.requests.borrow_mut().push(pagination_token.as_ref().map(|n| n.id.clone()));
        if self.fail_at == Some(self.requests.borrow().len()) {
            return Err(CisClientError::RequestError("page unavailable".to_string()));
        }
        if pagination_token.is_none() && self.count == 0 {
            return Ok(Batch { items: vec![], next_page: None });
        }
        let left: usize = match pagination_token {
            Some(n) => n.id.parse().unwrap(),
            None => self.count,
        };
        Ok(Batch {
            items: vec![left as u32],
            next_page: if left > 1 { Some(NextPage { id: format!("{}", left - 1) }) } else { None },
        })
    }
}

fn collect_all(iter: &mut ProfileIter<CisClientFaker>) -> Vec<Vec<u32>> {
    let mut v = vec![];
    while let Some(b) = iter.next() {
        v.push(b.unwrap());
    }
    v
}

#[test]
fn test_profile_iter_empty() {
    let mut iter = ProfileIter::new(faker(0), None);
    assert!(iter.next().is_none());
}

#[test]
fn test_profile_iter1() {
    let mut iter = ProfileIter::new(faker(1), None);
    assert!(iter.next().is_some());
    assert!(iter.next().is_none());
}

#[test]
fn test_profile_iter2() {
    let mut iter = ProfileIter::new(faker(2), None);
    assert!(iter.next().is_some());
    assert!(iter.next().is_some());
    assert!(iter.next().is_none());
}

#[test]
fn batch_test_profile_iter_empty() {
    let v = collect_all(&mut ProfileIter::new(faker(0), None));
    assert!(v.is_empty());
}

#[test]
fn batch_test_profile_iter1() {
    let v = collect_all(&mut ProfileIter::new(faker(1), None));
    assert_eq!(v.len(), 1);
}

#[test]
fn test_profile_iter10() {
    let v = collect_all(&mut ProfileIter::new(faker(10), None));
    assert_eq!(v.len(), 10);
}

#[test]
fn empty_listing_fetches_once_and_yields_nothing() {
    let client = faker(0);
    let seen = Rc::clone(&client.requests);
    let mut iter = ProfileIter::new(client, None);
    assert!(iter.next().is_none());
    assert!(iter.next().is_none());
    assert_eq!(*seen.borrow(), vec![None]);
}

#[test]
fn three_pages_come_in_cursor_order() {
    let client = faker(3);
    let seen = Rc::clone(&client.requests);
    let mut iter = ProfileIter::new(client, Some("public".to_string()));
    let v = collect_all(&mut iter);
    assert_eq!(v, vec![vec![3], vec![2], vec![1]]);
    assert_eq!(v.iter().map(|b| b.len()).collect::<Vec<_>>(), vec![1, 1, 1]);
    assert!(iter.next().is_none());
    assert_eq!(seen.borrow().len(), 3);
}

#[test]
fn each_fetch_uses_the_previous_cursor() {
    let client = faker(3);
    let seen = Rc::clone(&client.requests);
    let mut iter = ProfileIter::new(client, None);
    while iter.next().is_some() {}
    assert!(iter.next().is_none());
    assert_eq!(*seen.borrow(), vec![None, Some("2".to_string()), Some("1".to_string())]);
}

#[test]
fn failure_on_second_page_stops_the_stream() {
    let client = CisClientFaker { count: 3, fail_at: Some(2), requests: Rc::new(RefCell::new(vec![])), filters: Rc::new(RefCell::new(vec![])) };
    let seen = Rc::clone(&client.requests);
    let mut iter = ProfileIter::new(client, None);
    assert_eq!(iter.next().unwrap().unwrap(), vec![3]);
    assert!(matches!(iter.next(), Some(Err(CisClientError::RequestError(_)))));
    assert!(iter.next().is_none());
    assert!(iter.next().is_none());
    assert_eq!(*seen.borrow(), vec![None, Some("2".to_string())]);
}

#[test]
fn failure_on_first_page_is_reported_once() {
    let client = CisClientFaker { count: 3, fail_at: Some(1), requests: Rc::new(RefCell::new(vec![])), filters: Rc::new(RefCell::new(vec![])) };
    let seen = Rc::clone(&client.requests);
    let mut iter = ProfileIter::new(client, None);
    assert!(matches!(iter.next(), Some(Err(_))));
    assert!(iter.next().is_none());
    assert_eq!(*seen.borrow(), vec![None]);
}

struct Scripted {
    pages: RefCell<Vec<Batch<u32>>>,
}

impl CisClientTrait for Scripted {
    type Profile = u32;

    fn get_batch(&self, _: &Option<NextPage>, _: &Option<String>) -> Result<Batch<u32>, CisClientError> {
        Ok(self.pages.borrow_mut().remove(0))
    }
}

#[test]
fn empty_page_with_cursor_is_emitted_and_empty_last_page_is_not() {
    let pages = vec![
        Batch { items: vec![], next_page: Some(NextPage { id: "a".to_string() }) },
        Batch { items: vec![7], next_page: Some(NextPage { id: "b".to_string() }) },
        Batch { items: vec![], next_page: None },
    ];
    let mut iter = ProfileIter::new(Scripted { pages: RefCell::new(pages) }, None);
    assert_eq!(iter.next().unwrap().unwrap(), Vec::<u32>::new());
    assert_eq!(iter.next().unwrap().unwrap(), vec![7]);
    assert!(iter.next().is_none());
    assert!(iter.next().is_none());
}

#[test]
fn advance_reports_a_given_outcome() {
    let mut iter = ProfileIter::new(faker(0), None);
    let r = iter.advance(Ok(Batch { items: vec![1, 2], next_page: None }));
    assert_eq!(r.unwrap().unwrap(), vec![1, 2]);
    assert!(iter.next().is_none());
}

#[test]
fn profile_without_uuid_does_not_exist() {
    assert_eq!(check_profile_exists(5u32, true).unwrap(), 5);
    assert!(matches!(
        check_profile_exists(5u32, false),
        Err(CisClientError::ProfileError(ProfileError::ProfileDoesNotExist))
    ));
}

#[test]
fn every_fetch_carries_the_filter() {
    let client = faker(3);
    let filters = Rc::clone(&client.filters);
    let mut iter = ProfileIter::new(client, Some("staff".to_string()));
    while iter.next().is_some() {}
    let staff = Some("staff".to_string());
    assert_eq!(*filters.borrow(), vec![staff.clone(), staff.clone(), staff]);
}
