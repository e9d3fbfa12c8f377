//! Event handler attributes.
use vstd::prelude::*;
use crate::runtime::expr::Expr;
use crate::view::runtime::Formatter;

verus! {

/// An event handler attribute: the event's name and the handler expression. It is written as
/// a `data-topcoat-on:<event>` attribute whose value is the handler's JavaScript; the browser
/// compiles that value into a real handler.
#[derive(Debug, Clone)]
pub struct EventHandler<K, V> {
    key: K,
    value: V,
}

impl<K, V> EventHandler<K, V> {
    /// The handler `value` for the event `key`.
    pub fn new(key: K, value: V) -> (r: Self)
        ensures
            r.key() == key,
            r.handler() == value,
    {
        EventHandler { key, value }
    }

    /// The event's name.
    pub closed spec fn key(&self) -> K {
        self.key
    }

    /// The handler expression.
    pub closed spec fn handler(&self) -> V {
        self.value
    }
}

/// The text of the attribute for event `key` with handler JavaScript `js`: the event's
/// name and the handler escaped, the markup around them as it is.
pub open spec fn handler_attribute(key: Seq<char>, js: Seq<char>) -> Seq<char> {
    seq![' ', 'd', 'a', 't', 'a', '-', 't', 'o', 'p', 'c', 'o', 'a', 't', '-', 'o', 'n', ':']
        + crate::view::escape::escape_html(key) + seq!['=', '"'] + crate::view::escape::escape_html(js) + seq![
        '"',
        ' ',
    ]
}

impl<V> EventHandler<&'static str, V> where V: Expr<Output = ()> {
    /// Writes the handler as an attribute.
    pub fn write_view_parts(&self, f: &mut Formatter)
        ensures
            final(f)@ == old(f)@ + handler_attribute(self.key()@, self.handler().js()),
    {
        let mut js = String::new();
        self.value.to_js(&mut js);
        f.write_str_unescaped(" data-topcoat-on:");
        proof {
            reveal_strlit(" data-topcoat-on:");
        }
        f.write_str(self.key);
        f.write_str_unescaped("=\"");
        proof {
            reveal_strlit("=\"");
        }
        f.write_str(js.as_str());
        f.write_str_unescaped("\" ");
        proof {
            reveal_strlit("\" ");
        }
        assert(js@ =~= self.handler().js());
        assert(f@ =~= old(f)@ + handler_attribute(self.key()@, self.handler().js()));
    }
}

} // verus!
