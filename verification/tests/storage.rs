use shade::dto::BuildContext;
use shade::generation::{self, GenerationCounter};
use shade::handle::{cast_index_buffer, cast_shader, cast_texture2d, cast_vertex_buffer, BaseObject, ObjectType};
use shade::slotmap::SlotMap;

#[test]
fn slotmap_allocate_put_get() {
    let mut map: SlotMap<i32> = SlotMap::new();
    let key = map.allocate();
    assert_eq!(key.index(), 0);
    assert!(map.is_valid(key));
    assert!(map.is_taken(key));
    assert!(!map.is_occupied(key));
    assert_eq!(map.get(key), None);
    map.put(key, 5);
    assert_eq!(map.get(key), Some(&5));
    assert!(map.is_occupied(key));
    assert!(!map.is_taken(key));
}

#[test]
fn slotmap_keys_follow_allocation_order() {
    let mut map: SlotMap<u8> = SlotMap::new();
    let a = map.allocate();
    let b = map.allocate();
    let c = map.allocate();
    assert_eq!((a.index(), b.index(), c.index()), (0, 1, 2));
    assert_ne!(a, b);
}

#[test]
fn slotmap_take_then_put_restores() {
    let mut map: SlotMap<String> = SlotMap::new();
    let key = map.allocate();
    map.put(key, "widget".to_owned());
    let value = map.take(key);
    assert_eq!(value, "widget");
    assert!(map.is_taken(key));
    assert_eq!(map.get(key), None);
    map.put(key, value);
    assert_eq!(map.get(key).map(|s| s.as_str()), Some("widget"));
}

#[test]
fn slotmap_remove_then_allocate_reuses_the_key() {
    let mut map: SlotMap<i32> = SlotMap::new();
    let a = map.allocate();
    map.put(a, 1);
    let b = map.allocate();
    map.put(b, 2);
    assert_eq!(map.remove(a), 1);
    assert!(!map.is_valid(a));
    assert_eq!(map.get(a), None);
    let c = map.allocate();
    assert_eq!(c, a);
    assert_eq!(map.get(b), Some(&2));
    let d = map.allocate();
    assert_eq!(d.index(), 2);
}

#[test]
fn slotmap_get_mut_updates_the_value() {
    let mut map: SlotMap<i32> = SlotMap::new();
    let key = map.allocate();
    map.put(key, 10);
    if let Some(v) = map.get_mut(key) {
        *v += 5;
    }
    assert_eq!(map.get(key), Some(&15));
    let other = map.allocate();
    assert!(map.get_mut(other).is_none());
}

#[test]
fn slotmap_with_puts_the_value_back() {
    let mut map: SlotMap<i32> = SlotMap::new();
    let key = map.allocate();
    map.put(key, 3);
    let seen = map.with(key, |value, inner| {
        *value *= 2;
        inner.is_taken(key)
    });
    assert!(seen);
    assert_eq!(map.get(key), Some(&6));
}

#[test]
fn generation_next_then_drop() {
    let mut counter = GenerationCounter::new();
    assert_eq!(counter.current(), 0);
    let g = generation::next(&mut counter);
    assert_eq!(g, 1);
    assert!(generation::is_current(&counter, g));
    generation::drop(&mut counter, g);
    assert!(!generation::is_current(&counter, g));
    assert_eq!(counter.current(), 2);
}

#[test]
fn generation_drop_of_stale_generation_changes_nothing() {
    let mut counter = GenerationCounter::new();
    let g1 = generation::next(&mut counter);
    let g2 = generation::next(&mut counter);
    generation::drop(&mut counter, g1);
    assert_eq!(counter.current(), g2);
    assert!(generation::is_current(&counter, g2));
}

#[test]
fn handles_unwrap_or_and_casts() {
    let invalid = BaseObject::invalid();
    let valid = BaseObject { value: 7 };
    assert_eq!(invalid.unwrap_or(valid), valid);
    assert_eq!(valid.unwrap_or(invalid), valid);
    assert_eq!(valid.unwrap(), valid);
    assert_eq!(cast_vertex_buffer(valid, Some(ObjectType::VertexBuffer)).map(|h| h.value), Some(7));
    assert!(cast_vertex_buffer(valid, Some(ObjectType::Texture2D)).is_none());
    assert!(cast_index_buffer(valid, None).is_none());
    assert_eq!(cast_index_buffer(valid, Some(ObjectType::IndexBuffer)).map(|h| h.value), Some(7));
    assert_eq!(cast_shader(valid, Some(ObjectType::ShaderProgram)).map(|h| h.value), Some(7));
    assert_eq!(cast_texture2d(valid, Some(ObjectType::Texture2D)).map(|h| h.value), Some(7));
    assert!(cast_texture2d(valid, Some(ObjectType::ShaderProgram)).is_none());
}

#[test]
fn build_context_records_and_replaces_names() {
    let mut map: SlotMap<()> = SlotMap::new();
    let a = map.allocate();
    let b = map.allocate();
    let mut ctx = BuildContext::new();
    assert_eq!(ctx.key("menu"), None);
    ctx.insert(Some("menu".to_owned()), a);
    ctx.insert(None, b);
    assert_eq!(ctx.key("menu"), Some(a));
    assert_eq!(ctx.key("other"), None);
    ctx.insert(Some("menu".to_owned()), b);
    assert_eq!(ctx.key("menu"), Some(b));
}
