use vstd::prelude::*;

verus! {

/// One value of a stored document field, restricted to the shapes this
/// service reads or writes. Anything else a document may hold is `Other`.
pub enum Value {
    /// A 12-byte object identifier.
    ObjectId(Vec<u8>),
    /// A string.
    Text(String),
    /// A 32-bit signed integer.
    Int32(i32),
    /// A point in time, in milliseconds since the Unix epoch.
    DateTime(i64),
    /// An array of values.
    Array(Vec<Value>),
    /// A value of any other stored type.
    Other,
}

/// One named field of a document.
pub struct Field {
    pub key: String,
    pub value: Value,
}

/// A stored document: an ordered list of named fields.
pub struct Document {
    pub fields: Vec<Field>,
}

/// The value under `key`, going by the first field that carries it.
pub open spec fn lookup(fields: Seq<Field>, key: Seq<char>) -> Option<Value>
    decreases fields.len(),
{
    if fields.len() == 0 {
        None
    } else if fields[0].key@ == key {
        Some(fields[0].value)
    } else {
        lookup(fields.drop_first(), key)
    }
}

/// Fields that carry none of the keys before position `i` do not change
/// what `lookup` finds.
pub proof fn lemma_lookup_skip(fields: Seq<Field>, key: Seq<char>, i: int)
    requires
        0 <= i <= fields.len(),
        forall|k: int| 0 <= k < i ==> fields[k].key@ != key,
    ensures
        lookup(fields, key) == lookup(fields.skip(i), key),
    decreases i,
{
    if i > 0 {
        assert(fields.drop_first() =~= fields.skip(1));
        lemma_lookup_skip(fields.skip(1), key, i - 1);
        assert(fields.skip(1).skip(i - 1) =~= fields.skip(i));
    } else {
        assert(fields.skip(0) =~= fields);
    }
}

impl Document {
    /// A document with no fields.
    pub fn new() -> (r: Document)
        ensures
            r.fields@ =~= Seq::<Field>::empty(),
    {
        Document { fields: Vec::new() }
    }

    /// Appends a field at the end.
    pub fn push_field(&mut self, key: String, value: Value)
        ensures
            final(self).fields@ =~= old(self).fields@.push(Field { key, value }),
    {
        self.fields.push(Field { key, value });
    }

    /// The value stored under `key`, if any field carries that key.
    pub fn get<'a>(&'a self, key: &str) -> (r: Option<&'a Value>)
        ensures
            match r {
                Some(v) => lookup(self.fields@, key@) == Some(*v),
                None => lookup(self.fields@, key@) is None,
            },
    {
        let wanted = String::from_str(key);
        let n = self.fields.len();
        for i in 0..n
            invariant
                n == self.fields.len(),
                wanted@ == key@,
                forall|k: int| 0 <= k < i ==> self.fields@[k].key@ != key@,
        {
            if self.fields[i].key == wanted {
                proof {
                    lemma_lookup_skip(self.fields@, key@, i as int);
                    assert(self.fields@.skip(i as int)[0] == self.fields@[i as int]);
                }
                return Some(&self.fields[i].value);
            }
        }
        proof {
            lemma_lookup_skip(self.fields@, key@, n as int);
            assert(self.fields@.skip(n as int) =~= Seq::<Field>::empty());
        }
        None
    }
}

} // verus!
