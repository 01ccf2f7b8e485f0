# ifa

Verified core of the IFA (Integral Football Analysis) tools.

`src/` is the library, verified with Verus:

- `span`, `ids`, `position`, `arena`, `result`, `diagnostic`: the compiler's
  basic data structures (byte spans, node identifiers, an arena indexed by
  insertion order, compiler results and diagnostics).
- `text`: UTF-8 facts (character offsets, character boundaries) and the
  string operations built on them.
- `source`: source text with its line table; line starts, line texts,
  slices and offset-to-position conversion.
- `syntax`: syntax kinds and tokens, the lexer (specified by `lex_tokens`,
  with a proof that the tokens cover the text), syntax nodes and trees.
- `lexer`: the lexer front that holds its source.
- `league`: league and team modulators, as exact integers.
- `fixtures`: match records built from the data provider's fixtures, and
  the provider's errors.
- `report`: report file names.

`app/` holds the programs around it: the match report generator and the
backtest (floating-point models), the SQLite migration and query client, and
the data pipeline (HTTP, JSON, SQLite, command line).
