# rtformat

Runtime string formatting with `std::fmt`-compatible placeholder syntax,
written in Verus: the template grammar, the rendering of each argument
(sign, `#` prefix, zero padding, precision, fill and alignment), the integer
renderings and the formatting of a whole template are verified against
mathematical models of what they compute.

```rust
use rtformat::{ArgSlot, Format, Template};

assert_eq!("{} + {} = {2}".format(&[ArgSlot::I32(1), ArgSlot::I32(2), ArgSlot::I32(3)]), "1 + 2 = 3");
assert_eq!("{:#010x}".format(&[ArgSlot::I32(255)]), "0x000000ff");

let tpl = Template::parse("{:>1$}").unwrap();
assert_eq!(tpl.arity(), 2);
assert_eq!(tpl.format(&[ArgSlot::Str("ab"), ArgSlot::I32(5)]), "   ab");
```

## Layout

| Path | Content |
| ---- | ------- |
| `src/placeholder.rs` | the grammar of `{index:spec}` and its parser |
| `src/template.rs` | `Template`: parsing a whole template, resolving `n$` counts, rendering |
| `src/engine.rs` | rendering one argument according to a resolved spec |
| `src/int_fmt.rs` | decimal, two's-complement radix and exponent renderings of integers |
| `src/arg.rs` | `FormatType`, the `FormatArg` trait, the built-in `ArgSlot` arguments |
| `src/__private.rs` | `Wrap`: arguments rendered through their own `Display` / `Debug` |
| `src/builder.rs` | `FormatBuilder`, adding one argument at a time |
| `src/format.rs` | the `Format` trait on `str` |
| `src/param.rs` | `FormatParam`: argument lists of user-defined `FormatArg` types |
| `src/sink.rs` | `Sink`: destinations for formatted text |
| `src/strings.rs` | character-level string building; the `Debug` escapes of `core::fmt` |
| `src/laws.rs` | properties of the library as a whole |
| `app/lib.rs` | floating-point arguments, `Display`/`Debug` detection, `fmt::Write` sinks, `rformat!` |

Arguments whose rendering the library cannot compute itself (floating-point
values, user types) implement `FormatArg` and are formatted with
`try_format_with`; the result is then what the template gives for the
renderings those arguments reported.
