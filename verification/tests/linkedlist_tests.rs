use webweb::linkedlist::LinkedList;

#[test]
fn linkedlist_it_works() {
    let mut list = LinkedList::new();

    assert_eq!(list.count(), 0);
    assert_eq!(list.iter().next(), None);

    list.add_first(1);
    assert_eq!(list.count(), 1);

    let mut iter1 = list.iter();
    assert_eq!(iter1.next(), Some(&1));
    assert_eq!(iter1.next(), None);

    let mut iter1 = list.iter();
    assert_eq!(iter1.next(), Some(&1));
    assert_eq!(iter1.next(), None);

    list.add_first(2);
    assert_eq!(list.count(), 2);

    let mut iter2 = list.iter();
    assert_eq!(iter2.next(), Some(&2));
    assert_eq!(iter2.next(), Some(&1));
    assert_eq!(iter2.next(), None);

    let mut iter2 = list.iter();
    assert_eq!(iter2.next(), Some(&2));
    assert_eq!(iter2.next(), Some(&1));
    assert_eq!(iter2.next(), None);

    list.add_first(3);
    assert_eq!(list.count(), 3);

    let mut iter3 = list.iter();
    assert_eq!(iter3.next(), Some(&3));
    assert_eq!(iter3.next(), Some(&2));
    assert_eq!(iter3.next(), Some(&1));
    assert_eq!(iter3.next(), None);

    let mut iter3 = list.iter();
    assert_eq!(iter3.next(), Some(&3));
    assert_eq!(iter3.next(), Some(&2));
    assert_eq!(iter3.next(), Some(&1));
    assert_eq!(iter3.next(), None);

    assert_eq!(list.pop_first(), Some(3));
    assert_eq!(list.count(), 2);

    let mut iter2 = list.iter();
    assert_eq!(iter2.next(), Some(&2));
    assert_eq!(iter2.next(), Some(&1));
    assert_eq!(iter2.next(), None);

    let mut iter2 = list.iter();
    assert_eq!(iter2.next(), Some(&2));
    assert_eq!(iter2.next(), Some(&1));
    assert_eq!(iter2.next(), None);

    assert_eq!(list.pop_first(), Some(2));
    assert_eq!(list.count(), 1);

    let mut iter1 = list.iter();
    assert_eq!(iter1.next(), Some(&1));
    assert_eq!(iter1.next(), None);

    let mut iter1 = list.iter();
    assert_eq!(iter1.next(), Some(&1));
    assert_eq!(iter1.next(), None);

    assert_eq!(list.pop_first(), Some(1));
    assert_eq!(list.count(), 0);
    assert_eq!(list.iter().next(), None);
}

#[test]
fn count_is_zero_on_creation() {
    let list: LinkedList<i32> = LinkedList::new();
    assert_eq!(list.count(), 0);
}

#[test]
fn iter_gives_none_on_empty() {
    let list: LinkedList<i32> = LinkedList::new();
    assert_eq!(list.iter().next(), None);
}

#[test]
fn iter_into_gives_none_on_empty() {
    let list: LinkedList<i32> = LinkedList::new();
    assert_eq!(list.into_iter().next(), None);
}

#[test]
fn iter_into_does_its_magic() {
    let mut list: LinkedList<i32> = LinkedList::new();
    list.add_first(3);
    list.add_first(2);
    list.add_first(1);

    let mut it = list.into_iter();
    let mut index: i32 = 0;
    while let Some(item) = it.next() {
        assert_eq!(index + 1, item);
        index += 1;
    }
    assert_eq!(index, 3);
}

#[test]
fn pop_first_on_empty_gives_none() {
    let mut list: LinkedList<i32> = LinkedList::new();
    assert_eq!(list.pop_first(), None);
}

#[test]
fn default_list_is_empty() {
    let list: LinkedList<i32> = Default::default();
    assert_eq!(list.count(), 0);
}

#[test]
fn iter_mut_gives_none_on_empty() {
    let mut list: LinkedList<i32> = LinkedList::new();
    assert_eq!(list.iter_mut().next(), None);
}

#[test]
fn iter_mut_add_one_to_all() {
    let mut list = LinkedList::new();
    list.add_first(3);
    list.add_first(2);
    list.add_first(1);

    let mut it = list.iter_mut();
    while let Some(x) = it.next() {
        *x += 1;
    }

    let mut collected: Vec<i32> = Vec::new();
    let mut values = list.iter();
    while let Some(v) = values.next() {
        collected.push(*v);
    }
    assert_eq!(collected, vec![2, 3, 4]);
}
