use skyblock_rs::paging::{append_page, start_collection};
use skyblock_rs::{PageStep, PageWalk};

/// Pages of a fixture: the items of each and the page count each reports.
fn fixture() -> Vec<(Vec<u32>, usize)> {
    vec![(vec![1, 2], 3), (vec![3, 4], 3), (vec![5], 3)]
}

fn collect(pages: &[(Vec<u32>, usize)], fetches: &mut usize) -> Vec<u32> {
    let mut walk = PageWalk::new();
    let mut items = start_collection(0);
    while let PageStep::Fetch(i) = walk.step() {
        *fetches += 1;
        let (page, total) = pages[i].clone();
        walk.page_fetched(total);
        append_page(&mut items, page);
    }
    items
}

fn stream(
    pages: &[(Vec<u32>, usize)],
    fetches: &mut usize,
    mut f: impl FnMut(u32) -> Result<(), String>,
) -> Result<(), String> {
    let mut walk = PageWalk::new();
    while let PageStep::Fetch(i) = walk.step() {
        *fetches += 1;
        let (page, total) = pages[i].clone();
        walk.page_fetched(total);
        for item in page {
            f(item)?;
        }
    }
    Ok(())
}

#[test]
fn collect_three_pages() {
    let mut fetches = 0;
    let items = collect(&fixture(), &mut fetches);
    assert_eq!(items, vec![1, 2, 3, 4, 5]);
    assert_eq!(fetches, 3);
}

#[test]
fn stream_stops_at_failing_item() {
    let mut fetches = 0;
    let mut seen = Vec::new();
    let res = stream(&fixture(), &mut fetches, |x| {
        seen.push(x);
        if seen.len() == 4 {
            Err("stop".to_string())
        } else {
            Ok(())
        }
    });
    assert_eq!(res, Err("stop".to_string()));
    assert_eq!(seen, vec![1, 2, 3, 4]);
    assert_eq!(fetches, 2);
}

#[test]
fn single_page_single_fetch() {
    let pages = vec![(vec![9, 8, 7], 1), (vec![6], 1)];
    let mut fetches = 0;
    assert_eq!(collect(&pages, &mut fetches), vec![9, 8, 7]);
    assert_eq!(fetches, 1);
    let mut fetches = 0;
    let mut seen = Vec::new();
    assert_eq!(stream(&pages, &mut fetches, |x| { seen.push(x); Ok(()) }), Ok(()));
    assert_eq!(seen, vec![9, 8, 7]);
    assert_eq!(fetches, 1);
}

#[test]
fn zero_or_own_index_ends_walk() {
    let mut walk = PageWalk::new();
    assert_eq!(walk.step(), PageStep::Fetch(0));
    walk.page_fetched(0);
    assert_eq!(walk.step(), PageStep::Done);

    let mut walk = PageWalk::new();
    walk.page_fetched(5);
    assert_eq!(walk.step(), PageStep::Fetch(1));
    assert_eq!(walk.next_page(), 1);
    walk.page_fetched(1);
    assert_eq!(walk.step(), PageStep::Done);
}

#[test]
fn latest_page_count_wins() {
    let pages = vec![(vec![1], 2), (vec![2], 4), (vec![3], 4), (vec![4], 4), (vec![5], 4)];
    let mut fetches = 0;
    assert_eq!(collect(&pages, &mut fetches), vec![1, 2, 3, 4]);
    assert_eq!(fetches, 4);
}
