# prts_mcp

An MCP server that answers questions about Arknights operators with data from the
PRTS wiki, rendered as Markdown.

- `src/` is the library, verified with Verus: the routing of a wiki page's lines into
  data domains, the cleaning of wikitext, the parsers of each domain (basic information,
  combat data with attributes, talents, potentials, skills, modules and attack ranges,
  materials, archives, artwork, voice lines), the search and filter logic of the
  operator search, and the replies of the tools. Regular expressions, percent-encoding,
  case mapping and HTML attribute selection are made by outside crates behind small
  trusted wrappers whose contracts name their results.
- `app/` is the server: the MCP protocol, the HTTP requests to the wiki, and the tool
  argument types with their JSON schema. It hands the library plain values and sends
  back what the library returns.
- `tests/` runs the library on concrete pages.
