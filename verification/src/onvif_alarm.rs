//! Motion alarms as ONVIF events.

use vstd::prelude::*;
use crate::text::{decimal, decimal_text};

verus! {

/// A named value of an event.
#[derive(Debug)]
pub struct SimpleItem {
    pub name: String,
    pub value: String,
}

impl SimpleItem {
    /// An item with a name and a value.
    pub fn new(name: &str, value: &str) -> (item: Self)
        ensures
            item.name@ == name@,
            item.value@ == value@,
    {
        SimpleItem { name: name.to_owned(), value: value.to_owned() }
    }
}

/// A property event.
#[derive(Debug)]
pub struct Event {
    pub topic: String,
    pub property_operation: String,
    pub source: Vec<SimpleItem>,
    pub key: Vec<SimpleItem>,
    pub data: Vec<SimpleItem>,
}

/// The names and values of a list of items.
pub open spec fn item_texts(items: Seq<SimpleItem>) -> Seq<(Seq<char>, Seq<char>)> {
    items.map_values(|i: SimpleItem| (i.name@, i.value@))
}

/// The motion alarm event of one accepted edge: the alarm rises on the only
/// video source, with the number of targets that raised it.
pub fn motion_alarm_event(targets: usize) -> (event: Event)
    ensures
        event.topic@ == "tns1:VideoSource/MotionAlarm"@,
        event.property_operation@ == Seq::<char>::empty(),
        item_texts(event.source@) == seq![("Source"@, "0"@)],
        item_texts(event.key@) == Seq::<(Seq<char>, Seq<char>)>::empty(),
        item_texts(event.data@) == seq![
            ("State"@, "true"@),
            ("Targets"@, decimal(targets as nat)),
        ],
{
    let mut source: Vec<SimpleItem> = Vec::new();
    source.push(SimpleItem::new("Source", "0"));
    let mut data: Vec<SimpleItem> = Vec::new();
    data.push(SimpleItem::new("State", "true"));
    data.push(SimpleItem::new("Targets", decimal_text(targets as u64).as_str()));
    let key: Vec<SimpleItem> = Vec::new();
    proof {
        assert(item_texts(source@) =~= seq![("Source"@, "0"@)]);
        assert(item_texts(key@) =~= seq![]);
        assert(item_texts(data@) =~= seq![
            ("State"@, "true"@),
            ("Targets"@, decimal(targets as nat)),
        ]);
    }
    Event {
        topic: "tns1:VideoSource/MotionAlarm".to_owned(),
        property_operation: String::new(),
        source,
        key,
        data,
    }
}

} // verus!
